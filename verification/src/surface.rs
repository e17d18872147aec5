//! The voxels on the surface of a basin: those with a face neighbour that
//! is assigned to another basin or to the vacuum.

use crate::density::Density;
use crate::voxel_map::VoxelMap;
use vstd::prelude::*;

verus! {

/// A voxel on the surface of its basin.
#[derive(Clone, Copy, Debug)]
pub struct SurfaceVoxel {
    /// The linear index of the voxel.
    pub voxel: usize,
    /// The atom that the basin of the voxel is assigned to.
    pub atom: usize,
    /// The x coordinate of the voxel on the grid.
    pub ix: isize,
    /// The y coordinate of the voxel on the grid.
    pub iy: isize,
    /// The z coordinate of the voxel on the grid.
    pub iz: isize,
}

impl VoxelMap {
    /// All six face neighbours of voxel `p` have the assignment of `p`.
    pub open spec fn interior(&self, p: int, density: Density) -> bool {
        forall|j: int|
            0 <= j < 6 ==> self.map[p] == self.map[p + #[trigger] density.reduced_shift_of(p)[j]]
    }

    /// What the surface scan reports of voxel `p`: nothing for a voxel in
    /// the vacuum or in the interior of its basin, else the voxel with its
    /// coordinates and the atom of its basin.
    pub open spec fn surface_at(&self, p: int, assigned_atom: Seq<usize>, density: Density) -> Option<
        SurfaceVoxel,
    > {
        if self.is_vacuum(p) || self.interior(p, density) {
            None
        } else {
            Some(
                SurfaceVoxel {
                    voxel: p as usize,
                    atom: assigned_atom[self.index@[self.map[p]] as int],
                    ix: density.size.coord_x(p) as isize,
                    iy: density.size.coord_y(p) as isize,
                    iz: density.size.coord_z(p) as isize,
                },
            )
        }
    }

    /// The surface voxels among the first `n` voxels, in ascending order.
    pub open spec fn surface_below(
        &self,
        n: int,
        assigned_atom: Seq<usize>,
        density: Density,
    ) -> Seq<SurfaceVoxel>
        decreases n,
    {
        if n <= 0 {
            Seq::empty()
        } else {
            match self.surface_at(n - 1, assigned_atom, density) {
                Some(found) => self.surface_below(n - 1, assigned_atom, density).push(found),
                None => self.surface_below(n - 1, assigned_atom, density),
            }
        }
    }

    /// Reports voxel `p` if it lies on the surface of its basin.
    pub fn surface_voxel(&self, p: usize, assigned_atom: &Vec<usize>, density: &Density) -> (found:
        Option<SurfaceVoxel>)
        requires
            self.wf(),
            density.wf(),
            self.map.len() == density.size.total,
            self.basins().len() <= assigned_atom.len(),
            p < self.map.len(),
        ensures
            found == self.surface_at(p as int, assigned_atom@, *density),
    {
        match self.basin(p) {
            None => None,
            Some(basin) => {
                let shifts = density.reduced_shift(p as isize);
                proof {
                    let offsets = density.reduced_shift_of(p as int);
                    if self.known(p as int, shifts) {
                        assert forall|j: int| 0 <= j < 6 implies self.map[p as int] == self.map[p
                            + #[trigger] offsets[j]] by {
                            assert(shifts[j] == offsets[j]);
                        }
                    }
                    if self.interior(p as int, *density) {
                        assert forall|j: int| 0 <= j < 6 implies self.map[p as int] == self.map[p
                            + #[trigger] shifts[j]] by {
                            assert(shifts[j] == offsets[j]);
                        }
                    }
                }
                if self.is_known(p, shifts) {
                    None
                } else {
                    let at = density.size.coords(p as isize);
                    Some(
                        SurfaceVoxel {
                            voxel: p,
                            atom: assigned_atom[basin],
                            ix: at[0],
                            iy: at[1],
                            iz: at[2],
                        },
                    )
                }
            },
        }
    }

    /// Scans the map for the voxels on the surface of a basin.
    pub fn surface_voxels(&self, assigned_atom: &Vec<usize>, density: &Density) -> (surface: Vec<
        SurfaceVoxel,
    >)
        requires
            self.wf(),
            density.wf(),
            self.map.len() == density.size.total,
            self.basins().len() <= assigned_atom.len(),
        ensures
            surface@ == self.surface_below(self.map.len() as int, assigned_atom@, *density),
    {
        let mut surface: Vec<SurfaceVoxel> = Vec::new();
        let mut p: usize = 0;
        while p < self.map.len()
            invariant
                self.wf(),
                density.wf(),
                self.map.len() == density.size.total,
                self.basins().len() <= assigned_atom.len(),
                0 <= p <= self.map.len(),
                surface@ == self.surface_below(p as int, assigned_atom@, *density),
            decreases self.map.len() - p,
        {
            match self.surface_voxel(p, assigned_atom, density) {
                Some(found) => {
                    surface.push(found);
                },
                None => {},
            }
            p += 1;
        }
        surface
    }
}

} // verus!
