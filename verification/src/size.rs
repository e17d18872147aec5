//! The extent of a periodic voxel grid and its flattened layout.

use vstd::arithmetic::div_mod::{
    lemma_div_denominator, lemma_fundamental_div_mod, lemma_fundamental_div_mod_converse,
};
use vstd::prelude::*;

verus! {

/// The step along x of stencil entry `k`: -1, 0 or +1.
pub open spec fn stencil_dx(k: int) -> int {
    k / 9 - 1
}

/// The step along y of stencil entry `k`: -1, 0 or +1.
pub open spec fn stencil_dy(k: int) -> int {
    (k / 3) % 3 - 1
}

/// The step along z of stencil entry `k`: -1, 0 or +1.
pub open spec fn stencil_dz(k: int) -> int {
    k % 3 - 1
}

/// Why a grid cannot be built.
#[derive(Clone, Copy, Debug, PartialEq, Eq, Structural)]
pub enum GeometryError {
    /// An extent, or the number of voxels, does not fit a signed machine word.
    TooLarge,
    /// The density array does not hold one sample per voxel.
    LengthMismatch,
}

/// Size of the density data in 3d.
///
/// Voxels are flattened with z running fastest, then y, then x.
#[derive(Clone, Copy, Debug)]
pub struct Size {
    pub x: isize,
    pub y: isize,
    pub z: isize,
    pub total: usize,
}

impl Size {
    /// The extents are not negative and `total` is their product, which fits
    /// a signed machine word.
    pub open spec fn wf(&self) -> bool {
        &&& 0 <= self.x
        &&& 0 <= self.y
        &&& 0 <= self.z
        &&& self.total == self.x * self.y * self.z
        &&& self.total <= isize::MAX
    }

    /// Whether a grid of these extents can be addressed by a signed machine word.
    pub open spec fn fits(x: usize, y: usize, z: usize) -> bool {
        &&& x <= isize::MAX
        &&& y <= isize::MAX
        &&& z <= isize::MAX
        &&& x * y * z <= isize::MAX
    }

    /// The linear index of the voxel at `(ix, iy, iz)`.
    pub open spec fn index_of(&self, ix: int, iy: int, iz: int) -> int {
        (ix * self.y + iy) * self.z + iz
    }

    /// The x coordinate of voxel `p`.
    pub open spec fn coord_x(&self, p: int) -> int {
        p / (self.y * self.z)
    }

    /// The y coordinate of voxel `p`.
    pub open spec fn coord_y(&self, p: int) -> int {
        (p / (self.z as int)) % (self.y as int)
    }

    /// The z coordinate of voxel `p`.
    pub open spec fn coord_z(&self, p: int) -> int {
        p % (self.z as int)
    }

    /// The linear index of the voxel one stencil step `k` away from `p`,
    /// wrapping around the periodic boundary on every axis.
    pub open spec fn neighbour(&self, p: int, k: int) -> int {
        self.index_of(
            (self.coord_x(p) + stencil_dx(k)) % (self.x as int),
            (self.coord_y(p) + stencil_dy(k)) % (self.y as int),
            (self.coord_z(p) + stencil_dz(k)) % (self.z as int),
        )
    }

    /// Flattening a coordinate triple inside the grid gives a voxel of the
    /// grid, and reading the coordinates back returns the triple.
    pub proof fn lemma_coords_of_index(&self, ix: int, iy: int, iz: int)
        requires
            self.wf(),
            0 <= ix < self.x,
            0 <= iy < self.y,
            0 <= iz < self.z,
        ensures
            0 <= self.index_of(ix, iy, iz) < self.total,
            self.coord_x(self.index_of(ix, iy, iz)) == ix,
            self.coord_y(self.index_of(ix, iy, iz)) == iy,
            self.coord_z(self.index_of(ix, iy, iz)) == iz,
    {
        let y = self.y as int;
        let z = self.z as int;
        let x = self.x as int;
        let row = ix * y + iy;
        let p = row * z + iz;
        let rest = iy * z + iz;
        assert(0 <= row < x * y) by (nonlinear_arith)
            requires
                0 <= ix < x,
                0 <= iy < y,
                row == ix * y + iy,
        ;
        assert(0 <= p < x * y * z) by (nonlinear_arith)
            requires
                0 <= row < x * y,
                0 <= iz < z,
                p == row * z + iz,
        ;
        assert(0 <= rest < y * z && p == ix * (y * z) + rest) by (nonlinear_arith)
            requires
                0 <= iy < y,
                0 <= iz < z,
                rest == iy * z + iz,
                p == (ix * y + iy) * z + iz,
        ;
        lemma_fundamental_div_mod_converse(p, z, row, iz);
        lemma_fundamental_div_mod_converse(row, y, ix, iy);
        lemma_fundamental_div_mod_converse(p, y * z, ix, rest);
    }

    /// The coordinates of a voxel of the grid lie inside the grid, and
    /// flattening them returns the voxel.
    pub proof fn lemma_index_of_coords(&self, p: int)
        requires
            self.wf(),
            0 <= p < self.total,
        ensures
            0 <= self.coord_x(p) < self.x,
            0 <= self.coord_y(p) < self.y,
            0 <= self.coord_z(p) < self.z,
            self.index_of(self.coord_x(p), self.coord_y(p), self.coord_z(p)) == p,
    {
        let y = self.y as int;
        let z = self.z as int;
        let x = self.x as int;
        assert(x > 0 && y > 0 && z > 0) by (nonlinear_arith)
            requires
                0 <= x,
                0 <= y,
                0 <= z,
                x * y * z > 0,
        ;
        let row = p / z;
        lemma_fundamental_div_mod(p, z);
        lemma_fundamental_div_mod(row, y);
        lemma_div_denominator(p, z, y);
        assert(z * y == y * z) by (nonlinear_arith);
        let ix = row / y;
        let iy = row % y;
        let iz = p % z;
        assert(0 <= row) by (nonlinear_arith)
            requires
                p == z * row + iz,
                0 <= iz < z,
                0 <= p,
        ;
        assert(0 <= ix < x) by (nonlinear_arith)
            requires
                p == z * row + iz,
                row == y * ix + iy,
                0 <= iz < z,
                0 <= iy < y,
                0 <= p < x * y * z,
                0 <= row,
        ;
        assert((ix * y + iy) * z + iz == p) by (nonlinear_arith)
            requires
                p == z * row + iz,
                row == y * ix + iy,
        ;
    }

    /// The coordinates `[ix, iy, iz]` of voxel `p`.
    pub fn coords(&self, p: isize) -> (at: [isize; 3])
        requires
            self.wf(),
            0 <= p < self.total,
        ensures
            at[0] == self.coord_x(p as int),
            at[1] == self.coord_y(p as int),
            at[2] == self.coord_z(p as int),
    {
        proof {
            let (x, y, z) = (self.x as int, self.y as int, self.z as int);
            assert(y > 0 && z > 0 && y * z > 0 && y * z <= x * y * z) by (nonlinear_arith)
                requires
                    0 <= x,
                    0 <= y,
                    0 <= z,
                    x * y * z > 0,
            ;
        }
        let plane = self.y * self.z;
        [p / plane, (p / self.z) % self.y, p % self.z]
    }

    /// The length of the flattened array for the density data in 3d.
    pub fn new(x: usize, y: usize, z: usize) -> (r: Result<Size, GeometryError>)
        ensures
            match r {
                Ok(size) => {
                    &&& Self::fits(x, y, z)
                    &&& size.wf()
                    &&& size.x == x
                    &&& size.y == y
                    &&& size.z == z
                },
                Err(e) => !Self::fits(x, y, z) && e == GeometryError::TooLarge,
            },
    {
        let max: usize = isize::MAX as usize;
        if x > max || y > max || z > max {
            return Err(GeometryError::TooLarge);
        }
        if x == 0 || y == 0 || z == 0 {
            assert(x * y * z == 0) by (nonlinear_arith)
                requires
                    x == 0 || y == 0 || z == 0,
            ;
            return Ok(Size { x: x as isize, y: y as isize, z: z as isize, total: 0 });
        }
        match x.checked_mul(y) {
            None => {
                assert(x * y * z >= x * y) by (nonlinear_arith)
                    requires
                        z >= 1,
                        x >= 1,
                        y >= 1,
                ;
                Err(GeometryError::TooLarge)
            },
            Some(xy) => match xy.checked_mul(z) {
                None => Err(GeometryError::TooLarge),
                Some(total) => {
                    if total > max {
                        Err(GeometryError::TooLarge)
                    } else {
                        Ok(Size { x: x as isize, y: y as isize, z: z as isize, total })
                    }
                },
            },
        }
    }
}

} // verus!
