//! Periodic neighbour shifts on the flattened grid.
//!
//! Every voxel belongs to one of 27 boundary classes, according to whether it
//! sits on the first layer, the last layer or in between along each axis. For
//! each class the table holds the 27 signed offsets that lead from a voxel of
//! that class to the voxels of its 3x3x3 stencil, so that a neighbour is found
//! by one addition, with no division in the inner loops.
//!
//! Stencil entry `k` stands for the step `(dx, dy, dz)` with
//! `k = 9 (dx + 1) + 3 (dy + 1) + (dz + 1)`:
//!
//! > 0 -> (-1,-1,-1)   7 -> (-1, 1, 0)  14 -> (0, 0, 1)  21 -> (1, 0,-1)
//! > 1 -> (-1,-1, 0)   8 -> (-1, 1, 1)  15 -> (0, 1,-1)  22 -> (1, 0, 0)
//! > 2 -> (-1,-1, 1)   9 -> (0,-1,-1)   16 -> (0, 1, 0)  23 -> (1, 0, 1)
//! > 3 -> (-1, 0,-1)  10 -> (0,-1, 0)   17 -> (0, 1, 1)  24 -> (1, 1,-1)
//! > 4 -> (-1, 0, 0)  11 -> (0,-1, 1)   18 -> (1,-1,-1)  25 -> (1, 1, 0)
//! > 5 -> (-1, 0, 1)  12 -> (0, 0,-1)   19 -> (1,-1, 0)  26 -> (1, 1, 1)
//! > 6 -> (-1, 1,-1)  13 -> (0, 0, 0)   20 -> (1,-1, 1)

use crate::size::{stencil_dx, stencil_dy, stencil_dz, Size};
use vstd::arithmetic::div_mod::{lemma_fundamental_div_mod_converse, lemma_small_mod};
use vstd::prelude::*;

verus! {

/// The class digit of a position in the bulk of an axis.
pub const BULK: u8 = 0;

/// The class digit of the last position of an axis.
pub const LAST: u8 = 1;

/// The class digit of the first position of an axis.
pub const FIRST: u8 = 2;

/// The class digit of position `i` on an axis of length `n`.
pub open spec fn axis_class(n: int, i: int) -> int {
    if i == 0 {
        FIRST as int
    } else if i == n - 1 {
        LAST as int
    } else {
        BULK as int
    }
}

/// How far, in positions, a step `d` moves a voxel whose class digit on an
/// axis of length `n` is `class`: the step itself, unless it leaves the axis
/// and comes back in at the other end. On an axis of length one every step
/// stays in place.
pub open spec fn axis_step(n: int, class: int, d: int) -> int {
    if n <= 1 {
        0
    } else if class == FIRST && d == -1 {
        n - 1
    } else if class == LAST && d == 1 {
        1 - n
    } else {
        d
    }
}

/// On an axis of length `n`, stepping by `d` from position `i` and wrapping
/// around moves by the step of the class digit of `i`.
pub proof fn lemma_axis_step(n: int, i: int, d: int)
    requires
        0 <= i < n,
        -1 <= d <= 1,
    ensures
        0 <= (i + d) % n < n,
        (i + d) % n - i == axis_step(n, axis_class(n, i), d),
{
    if n == 1 {
        lemma_fundamental_div_mod_converse(d, n, d, 0);
    } else if i == 0 && d == -1 {
        lemma_fundamental_div_mod_converse(-1, n, -1, n - 1);
    } else if i == n - 1 && d == 1 {
        lemma_fundamental_div_mod_converse(n, n, 1, 0);
    } else {
        lemma_small_mod((i + d) as nat, n as nat);
    }
}

/// The class digit of position `i` on an axis of length `n`.
fn axis_digit(n: isize, i: isize) -> (digit: u8)
    requires
        0 <= i < n,
    ensures
        digit == axis_class(n as int, i as int),
        digit < 3,
{
    if i == 0 {
        FIRST
    } else if i == n - 1 {
        LAST
    } else {
        BULK
    }
}

/// `t[class][d + 1]` is the offset of step `d` for each class digit of an
/// axis of length `n` whose positions lie `stride` apart, and no offset
/// exceeds the span of the axis.
pub open spec fn steps_of(t: [[isize; 3]; 3], n: int, stride: int) -> bool {
    forall|class: int, d: int|
        0 <= class < 3 && 0 <= d < 3 ==> {
            &&& #[trigger] t[class][d] == axis_step(n, class, d - 1) * stride
            &&& -((n - 1) * stride) <= t[class][d] <= (n - 1) * stride
        }
}

/// The offsets along one axis, by class digit and step.
fn axis_steps(n: isize, stride: isize) -> (t: [[isize; 3]; 3])
    requires
        1 <= n,
        0 <= stride,
        n * stride <= isize::MAX,
    ensures
        steps_of(t, n as int, stride as int),
{
    if n == 1 {
        let t = [[0isize; 3]; 3];
        assert(steps_of(t, n as int, stride as int)) by {
            assert forall|class: int, d: int| 0 <= class < 3 && 0 <= d < 3 implies {
                &&& #[trigger] t[class][d] == axis_step(n as int, class, d - 1) * stride
                &&& -((n - 1) * stride) <= t[class][d] <= (n - 1) * stride
            } by {
                assert(0 * stride == 0) by (nonlinear_arith);
            }
        }
        t
    } else {
        proof {
            let (a, s) = (n as int, stride as int);
            assert(0 <= s <= (a - 1) * s && (a - 1) * s <= a * s && (1 - a) * s == -((a - 1) * s)
                && 1 * s == s && (-1) * s == -s && 0 * s == 0) by (nonlinear_arith)
                requires
                    a >= 2,
                    s >= 0,
            ;
        }
        let wrap = (n - 1) * stride;
        let t = [[-stride, 0, stride], [-stride, 0, -wrap], [wrap, 0, stride]];
        t
    }
}

/// Structure for holding the periodic shifts.
pub struct Shift {
    /// `di[class][k]`: the offset from a voxel of `class` to stencil entry `k`.
    pub di: [[isize; 27]; 27],
    /// `index[p]`: the boundary class of voxel `p`.
    pub index: Vec<u8>,
}

impl Shift {
    /// The boundary class of voxel `p`: the class digits of its coordinates,
    /// x most significant, in base three.
    pub open spec fn class_of(size: Size, p: int) -> int {
        9 * axis_class(size.x as int, size.coord_x(p)) + 3 * axis_class(
            size.y as int,
            size.coord_y(p),
        ) + axis_class(size.z as int, size.coord_z(p))
    }

    /// The offset from a voxel of `class` to stencil entry `k`. A grid
    /// without voxels has an all-zero table.
    pub open spec fn offset(size: Size, class: int, k: int) -> int {
        if size.total == 0 {
            0
        } else {
            axis_step(size.x as int, class / 9, stencil_dx(k)) * (size.y * size.z) + axis_step(
                size.y as int,
                (class / 3) % 3,
                stencil_dy(k),
            ) * size.z + axis_step(size.z as int, class % 3, stencil_dz(k))
        }
    }

    /// Every class in `index` names a row of the table.
    pub open spec fn wf(&self) -> bool {
        forall|p: int| 0 <= p < self.index.len() ==> #[trigger] self.index[p] < 27
    }

    /// The table and the classes are those of a grid of this size.
    pub open spec fn models(&self, size: Size) -> bool {
        &&& self.index.len() == size.total
        &&& forall|p: int|
            0 <= p < size.total ==> #[trigger] self.index[p] == Self::class_of(size, p)
        &&& forall|c: int, k: int|
            0 <= c < 27 && 0 <= k < 27 ==> #[trigger] self.di[c][k] == Self::offset(size, c, k)
    }

    /// Gets the periodic boundary shift.
    pub fn get(&self, i: isize) -> (shift: [isize; 27])
        requires
            self.wf(),
            0 <= i < self.index.len(),
        ensures
            shift == self.di[self.index[i as int] as int],
    {
        let ii = self.index[i as usize] as usize;
        self.di[ii]
    }

    /// Generate the indices for Shift.index.
    ///
    /// The grid is walked once in memory order, so the class of each voxel
    /// comes from three counters and not from a division.
    pub fn index_gen(size: &Size) -> (index: Vec<u8>)
        requires
            size.wf(),
        ensures
            index.len() == size.total,
            forall|p: int| 0 <= p < size.total ==> #[trigger] index[p] == Self::class_of(*size, p),
    {
        let mut index: Vec<u8> = Vec::new();
        if size.total == 0 {
            return index;
        }
        proof {
            let (x, y, z) = (size.x as int, size.y as int, size.z as int);
            assert(x > 0 && y > 0 && z > 0) by (nonlinear_arith)
                requires
                    0 <= x,
                    0 <= y,
                    0 <= z,
                    x * y * z > 0,
            ;
            assert((0 * y + 0) * z + 0 == 0) by (nonlinear_arith);
        }
        let mut ix: isize = 0;
        while ix < size.x
            invariant
                size.wf(),
                0 < size.y,
                0 < size.z,
                0 <= ix <= size.x,
                index.len() == size.index_of(ix as int, 0, 0),
                forall|p: int|
                    0 <= p < index.len() ==> #[trigger] index[p] == Self::class_of(*size, p),
            decreases size.x - ix,
        {
            let cx = axis_digit(size.x, ix);
            let mut iy: isize = 0;
            while iy < size.y
                invariant
                    size.wf(),
                    0 < size.y,
                    0 < size.z,
                    0 <= ix < size.x,
                    0 <= iy <= size.y,
                    cx == axis_class(size.x as int, ix as int),
                    index.len() == size.index_of(ix as int, iy as int, 0),
                    forall|p: int|
                        0 <= p < index.len() ==> #[trigger] index[p] == Self::class_of(*size, p),
                decreases size.y - iy,
            {
                let cy = axis_digit(size.y, iy);
                let mut iz: isize = 0;
                while iz < size.z
                    invariant
                        size.wf(),
                        0 <= ix < size.x,
                        0 <= iy < size.y,
                        0 <= iz <= size.z,
                        cx == axis_class(size.x as int, ix as int),
                        cy == axis_class(size.y as int, iy as int),
                        index.len() == size.index_of(ix as int, iy as int, iz as int),
                        forall|p: int|
                            0 <= p < index.len() ==> #[trigger] index[p] == Self::class_of(
                                *size,
                                p,
                            ),
                    decreases size.z - iz,
                {
                    let cz = axis_digit(size.z, iz);
                    proof {
                        size.lemma_coords_of_index(ix as int, iy as int, iz as int);
                    }
                    index.push(9 * cx + 3 * cy + cz);
                    iz += 1;
                }
                proof {
                    let (i, j, y, z) = (ix as int, iy as int, size.y as int, size.z as int);
                    assert((i * y + j) * z + z == (i * y + (j + 1)) * z + 0) by (nonlinear_arith);
                }
                iy += 1;
            }
            proof {
                let (i, y, z) = (ix as int, size.y as int, size.z as int);
                assert((i * y + y) * z + 0 == ((i + 1) * y + 0) * z + 0) by (nonlinear_arith);
            }
            ix += 1;
        }
        proof {
            let (x, y, z) = (size.x as int, size.y as int, size.z as int);
            assert((x * y + 0) * z + 0 == x * y * z) by (nonlinear_arith);
        }
        index
    }

    /// Creates the shift matrix for moving in the array.
    ///
    /// The outer index of `di` is the boundary class of a voxel, the inner
    /// index the stencil entry.
    pub fn new(size: &Size) -> (shift: Shift)
        requires
            size.wf(),
        ensures
            shift.models(*size),
            shift.wf(),
    {
        let index = Shift::index_gen(size);
        let mut di = [[0isize; 27]; 27];
        if size.total == 0 {
            return Shift { di, index };
        }
        proof {
            let (x, y, z) = (size.x as int, size.y as int, size.z as int);
            assert(x > 0 && y > 0 && z > 0 && y * z <= x * y * z && x * (y * z) == x * y * z)
                by (nonlinear_arith)
                requires
                    0 <= x,
                    0 <= y,
                    0 <= z,
                    x * y * z > 0,
            ;
            assert(y * z <= y * z * 1 && z * 1 == z) by (nonlinear_arith);
            assert(z * 1 <= y * z) by (nonlinear_arith)
                requires
                    y >= 1,
                    z >= 0,
            ;
        }
        let plane = size.y * size.z;
        let tx = axis_steps(size.x, plane);
        let ty = axis_steps(size.y, size.z);
        let tz = axis_steps(size.z, 1);
        proof {
            let (x, y, z) = (size.x as int, size.y as int, size.z as int);
            assert((x - 1) * (y * z) + (y - 1) * z + (z - 1) * 1 == x * y * z - 1)
                by (nonlinear_arith);
        }
        let mut c: usize = 0;
        while c < 27
            invariant
                size.wf(),
                size.total > 0,
                0 <= c <= 27,
                plane == size.y * size.z,
                steps_of(tx, size.x as int, plane as int),
                steps_of(ty, size.y as int, size.z as int),
                steps_of(tz, size.z as int, 1),
                (size.x - 1) * plane + (size.y - 1) * size.z + (size.z - 1) * 1 == size.total - 1,
                forall|b: int, k: int|
                    0 <= b < c && 0 <= k < 27 ==> #[trigger] di[b][k] == Self::offset(*size, b, k),
            decreases 27 - c,
        {
            let mut row = [0isize; 27];
            let rx = tx[c / 9];
            let ry = ty[(c / 3) % 3];
            let rz = tz[c % 3];
            let mut k: usize = 0;
            while k < 27
                invariant
                    size.wf(),
                    size.total > 0,
                    0 <= c < 27,
                    0 <= k <= 27,
                    plane == size.y * size.z,
                    steps_of(tx, size.x as int, plane as int),
                    steps_of(ty, size.y as int, size.z as int),
                    steps_of(tz, size.z as int, 1),
                    rx == tx[c as int / 9],
                    ry == ty[(c as int / 3) % 3],
                    rz == tz[c as int % 3],
                    (size.x - 1) * plane + (size.y - 1) * size.z + (size.z - 1) * 1 == size.total
                        - 1,
                    forall|j: int|
                        0 <= j < k ==> #[trigger] row[j] == Self::offset(*size, c as int, j),
                decreases 27 - k,
            {
                let ax = rx[k / 9];
                let ay = ry[(k / 3) % 3];
                let az = rz[k % 3];
                row[k] = ax + ay + az;
                k += 1;
            }
            di[c] = row;
            c += 1;
        }
        Shift { di, index }
    }

    /// Adding the table's offset for its class to a voxel gives the voxel one
    /// stencil step away under the periodic boundary: the coordinates of the
    /// voxel reached are the coordinates of `p` plus the step, each taken
    /// modulo the length of its axis.
    pub proof fn lemma_offset_reaches_neighbour(size: Size, p: int, k: int)
        requires
            size.wf(),
            0 <= p < size.total,
            0 <= k < 27,
        ensures
            0 <= Self::class_of(size, p) < 27,
            p + Self::offset(size, Self::class_of(size, p), k) == size.neighbour(p, k),
            0 <= size.neighbour(p, k) < size.total,
            size.coord_x(size.neighbour(p, k)) == (size.coord_x(p) + stencil_dx(k)) % (
            size.x as int),
            size.coord_y(size.neighbour(p, k)) == (size.coord_y(p) + stencil_dy(k)) % (
            size.y as int),
            size.coord_z(size.neighbour(p, k)) == (size.coord_z(p) + stencil_dz(k)) % (
            size.z as int),
    {
        let x = size.x as int;
        let y = size.y as int;
        let z = size.z as int;
        let ix = size.coord_x(p);
        let iy = size.coord_y(p);
        let iz = size.coord_z(p);
        size.lemma_index_of_coords(p);
        let dx = stencil_dx(k);
        let dy = stencil_dy(k);
        let dz = stencil_dz(k);
        lemma_axis_step(x, ix, dx);
        lemma_axis_step(y, iy, dy);
        lemma_axis_step(z, iz, dz);
        let jx = (ix + dx) % x;
        let jy = (iy + dy) % y;
        let jz = (iz + dz) % z;
        size.lemma_coords_of_index(jx, jy, jz);
        let cx = axis_class(x, ix);
        let cy = axis_class(y, iy);
        let cz = axis_class(z, iz);
        let class = Self::class_of(size, p);
        assert(class == 9 * cx + 3 * cy + cz);
        assert(class / 9 == cx && (class / 3) % 3 == cy && class % 3 == cz);
        let sx = axis_step(x, cx, dx);
        let sy = axis_step(y, cy, dy);
        let sz = axis_step(z, cz, dz);
        assert(((ix + sx) * y + (iy + sy)) * z + (iz + sz) == ((ix * y + iy) * z + iz) + (sx * (y
            * z) + sy * z + sz)) by (nonlinear_arith);
    }
}

} // verus!
