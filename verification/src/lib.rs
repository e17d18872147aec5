//! Grid-based Bader partitioning: the periodic voxel grid, its neighbour
//! shifts, and the bookkeeping that maps voxels to basins.

pub mod arguments;
pub mod density;
pub mod progress;
pub mod shift;
pub mod size;
pub mod surface;
pub mod text;
pub mod voxel_map;
