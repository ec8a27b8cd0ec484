//! Launch grids for kernels that give one unit of work to each element.

use vstd::prelude::*;

verus! {

/// Number of units along each axis of one cube.
#[derive(Clone, Copy, Debug, PartialEq, Eq, Structural, Hash)]
pub struct CubeDim {
    pub x: u32,
    pub y: u32,
    pub z: u32,
}

/// Number of cubes along each axis of the grid.
#[derive(Clone, Copy, Debug, PartialEq, Eq, Structural, Hash)]
pub struct CubeCount {
    pub x: u32,
    pub y: u32,
    pub z: u32,
}

/// A grid to launch an element-wise kernel over.
#[derive(Clone, Copy, Debug, PartialEq, Eq, Structural, Hash)]
pub struct LaunchGrid {
    pub cube_dim: CubeDim,
    pub cube_count: CubeCount,
}

/// Why no grid could be planned.
#[derive(Clone, Copy, Debug, PartialEq, Eq, Structural, Hash)]
pub enum LaunchError {
    /// The runtime did not give a fixed number of cubes.
    DynamicCount,
    /// The grid has fewer units than there are elements.
    GridTooSmall,
}

impl CubeDim {
    /// Units in one cube.
    pub open spec fn spec_num_elems(self) -> int {
        self.x * self.y * self.z
    }
}

impl CubeCount {
    /// Cubes in the grid.
    pub open spec fn spec_num_cubes(self) -> int {
        self.x * self.y * self.z
    }
}

impl LaunchGrid {
    /// Units in the whole grid.
    pub open spec fn spec_num_units(self) -> int {
        self.cube_count.spec_num_cubes() * self.cube_dim.spec_num_elems()
    }

    /// Every element below `num_elems` has a unit of its own.
    pub open spec fn covers(self, num_elems: usize) -> bool {
        self.spec_num_units() >= num_elems
    }
}

/// What `cubecl::calculate_cube_count_elemwise` returns for a number of elements
/// and a cube of `x * y * z` units: the three counts, or `None` where the count
/// is left to the device.
pub uninterp spec fn elemwise_cube_count(num_elems: usize, x: u32, y: u32, z: u32) -> Option<
    (u32, u32, u32),
>;

/// Calls `cubecl::CubeDim::default`, which the runtime defines as a cube of 16 by
/// 16 by 1 units.
#[verifier::external_body]
fn default_cube_dim() -> (dim: CubeDim)
    ensures
        dim == (CubeDim { x: 16, y: 16, z: 1 }),
{
    let dim = cubecl::CubeDim::default();
    CubeDim { x: dim.x, y: dim.y, z: dim.z }
}

/// Calls `cubecl::calculate_cube_count_elemwise`.  It derives the counts from
/// the number of elements by single-precision division, square root and rounding
/// up, so the contract names the result; it always gives fixed counts, with one
/// layer of cubes along the third axis.  The cube's number of units is
/// computed in `u32` there, as `x * y * z` from left to right: the contract
/// leaves out cubes for which a step of that does not fit.
#[verifier::external_body]
fn cube_count_elemwise(num_elems: usize, cube_dim: CubeDim) -> (count: Option<(u32, u32, u32)>)
    requires
        cube_dim.x * cube_dim.y <= u32::MAX,
        cube_dim.spec_num_elems() <= u32::MAX,
    ensures
        count == elemwise_cube_count(num_elems, cube_dim.x, cube_dim.y, cube_dim.z),
        count is Some,
        count.unwrap().2 == 1,
{
    let dim = cubecl::CubeDim { x: cube_dim.x, y: cube_dim.y, z: cube_dim.z };
    match cubecl::calculate_cube_count_elemwise(num_elems, dim) {
        cubecl::CubeCount::Static(x, y, z) => Some((x, y, z)),
        cubecl::CubeCount::Dynamic(_) => None,
    }
}

/// What [`check_grid`] makes of the counts that the runtime proposed.
pub open spec fn spec_check_grid(
    num_elems: usize,
    cube_dim: CubeDim,
    proposed: Option<(u32, u32, u32)>,
) -> Result<LaunchGrid, LaunchError> {
    match proposed {
        None => Err(LaunchError::DynamicCount),
        Some((x, y, z)) => {
            let grid = LaunchGrid { cube_dim, cube_count: CubeCount { x, y, z } };
            if grid.covers(num_elems) {
                Ok(grid)
            } else {
                Err(LaunchError::GridTooSmall)
            }
        },
    }
}

proof fn lemma_product3_bound(x: u32, y: u32, z: u32)
    by (nonlinear_arith)
    ensures
        0 <= x * y <= 0xffff_ffff_ffff_ffff,
        0 <= x * y * z <= 0xffff_ffff_ffff_ffff_ffff_ffff,
{
}

proof fn lemma_large_grid_covers(cubes: int, units: int)
    by (nonlinear_arith)
    requires
        cubes >= 0,
        units >= 0,
        cubes * units > 0xffff_ffff_ffff_ffff_ffff_ffff_ffff_ffff,
    ensures
        cubes * units > 0xffff_ffff_ffff_ffff,
{
}

/// Accepts the proposed counts where the grid they make has a unit for every
/// element.
pub fn check_grid(num_elems: usize, cube_dim: CubeDim, proposed: Option<(u32, u32, u32)>) -> (r:
    Result<LaunchGrid, LaunchError>)
    ensures
        r == spec_check_grid(num_elems, cube_dim, proposed),
{
    match proposed {
        None => Err(LaunchError::DynamicCount),
        Some((x, y, z)) => {
            let grid = LaunchGrid { cube_dim, cube_count: CubeCount { x, y, z } };
            proof {
                lemma_product3_bound(x, y, z);
                lemma_product3_bound(cube_dim.x, cube_dim.y, cube_dim.z);
            }
            let units: u128 = (cube_dim.x as u128 * cube_dim.y as u128) * cube_dim.z as u128;
            let cubes: u128 = (x as u128 * y as u128) * z as u128;
            let covers = match cubes.checked_mul(units) {
                Some(total) => total >= num_elems as u128,
                None => {
                    proof {
                        lemma_large_grid_covers(cubes as int, units as int);
                    }
                    true
                },
            };
            if covers {
                Ok(grid)
            } else {
                Err(LaunchError::GridTooSmall)
            }
        },
    }
}

/// The default cube.
pub fn cube_dim() -> (dim: CubeDim)
    ensures
        dim == (CubeDim { x: 16, y: 16, z: 1 }),
{
    default_cube_dim()
}

/// Plans the grid of an element-wise kernel over `num_elems` elements: the
/// default cube, and the number of cubes that the runtime computes for it.  The
/// grid is refused where it would leave an element without a unit, and for no
/// other reason.
pub fn elemwise_grid(num_elems: usize) -> (r: Result<LaunchGrid, LaunchError>)
    ensures
        r == spec_check_grid(
            num_elems,
            CubeDim { x: 16, y: 16, z: 1 },
            elemwise_cube_count(num_elems, 16, 16, 1),
        ),
        r matches Ok(grid) ==> grid.covers(num_elems) && grid.cube_count.z == 1,
        r matches Err(e) ==> e == LaunchError::GridTooSmall,
{
    let dim = default_cube_dim();
    assert(dim.x * dim.y == 256 && dim.spec_num_elems() == 256) by (nonlinear_arith)
        requires
            dim.x == 16,
            dim.y == 16,
            dim.z == 1,
    ;
    let proposed = cube_count_elemwise(num_elems, dim);
    check_grid(num_elems, dim, proposed)
}

} // verus!
