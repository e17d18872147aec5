//! The grid side of a charge density: its size and the shifts that lead from
//! a voxel to its neighbours. The samples themselves stay with the caller,
//! who indexes them by the same linear voxel index.

use crate::shift::Shift;
use crate::size::{GeometryError, Size};
use vstd::prelude::*;

verus! {

/// The stencil entry behind position `j` of a full shift: the stencil
/// without its centre.
pub open spec fn full_stencil(j: int) -> int {
    if j < 13 {
        j
    } else {
        j + 1
    }
}

/// The stencil entries of the six face neighbours, in the order
/// +x, -x, +y, -y, +z, -z.
pub open spec fn face_stencil() -> Seq<int> {
    seq![22, 4, 16, 10, 14, 12]
}

/// Where each face neighbour stands in a full shift, in the order
/// +x, -x, +y, -y, +z, -z.
pub open spec fn face_position() -> Seq<int> {
    seq![21, 4, 15, 10, 13, 12]
}

/// The stencil entry that a gradient with components in {-1, 0, +1} points to.
pub open spec fn gradient_stencil(gradient: [isize; 3]) -> int {
    9 * gradient[0] + 3 * gradient[1] + gradient[2] + 13
}

/// Structure for managing the reference grid and movement within it.
pub struct Density {
    /// The values for moving around the flattened array.
    pub shift: Shift,
    /// The 3d size of the data.
    pub size: Size,
}

impl Density {
    /// The size is valid and the shifts are those of a grid of that size.
    pub open spec fn wf(&self) -> bool {
        &&& self.size.wf()
        &&& self.shift.wf()
        &&& self.shift.models(self.size)
    }

    /// The offset that leads from voxel `p` to the voxel one stencil step `k`
    /// away under the periodic boundary.
    pub open spec fn shift_to(&self, p: int, k: int) -> int {
        self.size.neighbour(p, k) - p
    }

    /// The entry of the shift table for the class of voxel `p` and stencil
    /// entry `k`.
    pub open spec fn table_entry(&self, p: int, k: int) -> int {
        self.shift.di[self.shift.index[p] as int][k] as int
    }

    /// The full shift of voxel `p`: the offsets to its 26 neighbours, in
    /// stencil order.
    pub open spec fn full_shift_of(&self, p: int) -> Seq<int> {
        Seq::new(26, |j: int| self.shift_to(p, full_stencil(j)))
    }

    /// The reduced shift of voxel `p`: the offsets to its six face
    /// neighbours, in the order +x, -x, +y, -y, +z, -z.
    pub open spec fn reduced_shift_of(&self, p: int) -> Seq<int> {
        Seq::new(6, |j: int| self.shift_to(p, face_stencil()[j]))
    }

    /// The reduced shift is the part of the full shift that belongs to the
    /// stencil entries 22, 4, 16, 10, 14 and 12, in that order.
    pub proof fn lemma_reduced_shift_in_full_shift(&self, p: int, j: int)
        requires
            0 <= j < 6,
        ensures
            0 <= face_position()[j] < 26,
            full_stencil(face_position()[j]) == face_stencil()[j],
            self.reduced_shift_of(p)[j] == self.full_shift_of(p)[face_position()[j]],
    {
    }

    /// In a valid density the shift table holds, for every voxel and every
    /// stencil entry, the offset to the periodic neighbour, and that
    /// neighbour is a voxel of the grid.
    pub proof fn lemma_table_entry(&self, p: int, k: int)
        requires
            self.wf(),
            0 <= p < self.size.total,
            0 <= k < 27,
        ensures
            self.table_entry(p, k) == self.shift_to(p, k),
            0 <= p + self.table_entry(p, k) < self.size.total,
    {
        Shift::lemma_offset_reaches_neighbour(self.size, p, k);
        let class = self.shift.index[p];
        assert(class == Shift::class_of(self.size, p));
        assert(self.shift.di[class as int][k] == Shift::offset(self.size, class as int, k));
    }

    /// Initialises the grid of a density of `length` samples.
    ///
    /// Fails when the grid is too large to address, and when it does not
    /// have one voxel for each sample.
    pub fn new(length: usize, grid: [usize; 3]) -> (r: Result<Density, GeometryError>)
        ensures
            match r {
                Ok(density) => {
                    &&& Size::fits(grid[0], grid[1], grid[2])
                    &&& density.wf()
                    &&& density.size.x == grid[0]
                    &&& density.size.y == grid[1]
                    &&& density.size.z == grid[2]
                    &&& density.size.total == length
                },
                Err(GeometryError::TooLarge) => !Size::fits(grid[0], grid[1], grid[2]),
                Err(GeometryError::LengthMismatch) => {
                    &&& Size::fits(grid[0], grid[1], grid[2])
                    &&& grid[0] * grid[1] * grid[2] != length
                },
            },
    {
        match Size::new(grid[0], grid[1], grid[2]) {
            Err(e) => Err(e),
            Ok(size) => {
                if size.total != length {
                    return Err(GeometryError::LengthMismatch);
                }
                let shift = Shift::new(&size);
                Ok(Density { shift, size })
            },
        }
    }

    /// Get the full shift to visit the surrounding 26 voxels.
    pub fn full_shift(&self, p: isize) -> (shift: [isize; 26])
        requires
            self.wf(),
            0 <= p < self.size.total,
        ensures
            forall|j: int| 0 <= j < 26 ==> #[trigger] shift[j] == self.full_shift_of(p as int)[j],
            forall|j: int|
                0 <= j < 26 ==> #[trigger] shift[j] == self.table_entry(p as int, full_stencil(j)),
            forall|j: int| 0 <= j < 26 ==> 0 <= p + #[trigger] shift[j] < self.size.total,
    {
        let row = self.shift.get(p);
        let mut shift = [0isize; 26];
        let mut j: usize = 0;
        while j < 26
            invariant
                0 <= j <= 26,
                forall|i: int| 0 <= i < j ==> #[trigger] shift[i] == row[full_stencil(i)],
            decreases 26 - j,
        {
            let k = if j < 13 {
                j
            } else {
                j + 1
            };
            shift[j] = row[k];
            j += 1;
        }
        proof {
            assert forall|i: int| 0 <= i < 26 implies #[trigger] shift[i] == self.shift_to(
                p as int,
                full_stencil(i),
            ) && shift[i] == self.table_entry(p as int, full_stencil(i)) && 0 <= p + shift[i]
                < self.size.total by {
                self.lemma_table_entry(p as int, full_stencil(i));
            }
        }
        shift
    }

    /// Get the reduced shift to visit the surrounding 6 voxels.
    pub fn reduced_shift(&self, p: isize) -> (shift: [isize; 6])
        requires
            self.wf(),
            0 <= p < self.size.total,
        ensures
            forall|j: int| 0 <= j < 6 ==> #[trigger] shift[j] == self.reduced_shift_of(p as int)[j],
            forall|j: int|
                0 <= j < 6 ==> #[trigger] shift[j] == self.table_entry(p as int, face_stencil()[j]),
            forall|j: int| 0 <= j < 6 ==> 0 <= p + #[trigger] shift[j] < self.size.total,
    {
        let shift = self.shift.get(p);
        proof {
            assert forall|k: int| 0 <= k < 27 implies #[trigger] shift[k] == self.shift_to(
                p as int,
                k,
            ) && 0 <= p + shift[k] < self.size.total by {
                self.lemma_table_entry(p as int, k);
            }
        }
        // [ +x, -x, +y, -y, +z, -z ]
        [shift[22], shift[4], shift[16], shift[10], shift[14], shift[12]]
    }

    /// Get the gradient shift from the current point.
    pub fn gradient_shift(&self, p: isize, gradient: [isize; 3]) -> (shift: isize)
        requires
            self.wf(),
            0 <= p < self.size.total,
            -1 <= gradient[0] <= 1,
            -1 <= gradient[1] <= 1,
            -1 <= gradient[2] <= 1,
        ensures
            shift == self.shift_to(p as int, gradient_stencil(gradient)),
            shift == self.table_entry(p as int, gradient_stencil(gradient)),
            0 <= p + shift < self.size.total,
    {
        let shift = self.shift.get(p);
        // [ [-x, 0, +x], [-y, 0, +y], [-z, 0, +z] ]
        let i = (gradient[0] * 9 + gradient[1] * 3 + gradient[2] + 13) as usize;
        proof {
            self.lemma_table_entry(p as int, i as int);
        }
        shift[i]
    }
}

} // verus!
