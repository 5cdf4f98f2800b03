//! The schedule of droplet erosion: how many droplets fall and where each
//! one starts. What a droplet does to the elevations on its way is left to
//! the caller.

use crate::rng::{pick_between, seeded};
use rand::rngs::SmallRng;
use vstd::prelude::*;

verus! {

/// Erosion is seeded by this constant, whatever the seed of the world.
pub const EROSION_SEED: u64 = 0xDEAD_BEEF;

/// A droplet takes at most this many steps.
pub const MAX_DROPLET_STEPS: usize = 64;

/// The number of droplets of one pass over a grid: one for every four
/// cells.
pub open spec fn drops_per_pass(width: int, height: int) -> int {
    width * height / 4
}

/// Whether a cell has all eight neighbours inside the grid.
pub open spec fn interior(width: int, height: int, x: int, y: int) -> bool {
    1 <= x < width - 1 && 1 <= y < height - 1
}

/// Decides whether a cell has all eight neighbours inside the grid. A
/// droplet that leaves the interior ends.
pub fn is_interior(width: usize, height: usize, x: usize, y: usize) -> (inside: bool)
    ensures
        inside == interior(width as int, height as int, x as int, y as int),
{
    x >= 1 && y >= 1 && width >= 1 && height >= 1 && x < width - 1 && y < height - 1
}

/// The droplets that are still to fall, and the generator that picks
/// where.
pub struct DropletSchedule {
    rng: SmallRng,
    width: usize,
    height: usize,
    left: u128,
}

impl DropletSchedule {
    /// The number of droplets that are still to fall.
    pub closed spec fn remaining(&self) -> nat {
        self.left as nat
    }

    /// The width of the grid.
    pub closed spec fn grid_width(&self) -> int {
        self.width as int
    }

    /// The height of the grid.
    pub closed spec fn grid_height(&self) -> int {
        self.height as int
    }

    /// While droplets are left, the grid has an interior.
    pub closed spec fn wf(&self) -> bool {
        self.left > 0 ==> self.width >= 3 && self.height >= 3
    }

    /// The schedule of `passes` passes over a grid. No pass means no
    /// droplet.
    pub fn new(width: usize, height: usize, passes: u32) -> (schedule: Self)
        requires
            width * height <= usize::MAX,
            passes > 0 && drops_per_pass(width as int, height as int) > 0 ==> width >= 3 && height
                >= 3,
        ensures
            schedule.wf(),
            schedule.grid_width() == width,
            schedule.grid_height() == height,
            schedule.remaining() == passes * drops_per_pass(width as int, height as int),
            passes == 0 ==> schedule.remaining() == 0,
    {
        assert(width * height >= 0) by (nonlinear_arith);
        let per_pass: u128 = width as u128 * height as u128 / 4;
        assert(passes * per_pass <= 0xFFFF_FFFF * 0xFFFF_FFFF_FFFF_FFFF) by (nonlinear_arith)
            requires
                0 <= passes <= 0xFFFF_FFFF,
                0 <= per_pass <= 0xFFFF_FFFF_FFFF_FFFF,
        ;
        assert(passes * per_pass >= 0) by (nonlinear_arith)
            requires
                passes >= 0,
                per_pass >= 0,
        ;
        assert(passes == 0 ==> passes * per_pass == 0) by (nonlinear_arith);
        assert(passes * per_pass > 0 ==> passes > 0 && per_pass > 0) by (nonlinear_arith)
            requires
                passes >= 0,
                per_pass >= 0,
        ;
        DropletSchedule { rng: seeded(EROSION_SEED), width, height, left: passes as u128 * per_pass }
    }

    /// Returns how many droplets are still to fall.
    pub fn droplets_left(&self) -> (left: u128)
        ensures
            left == self.remaining(),
    {
        self.left
    }

    /// Picks the cell where the next droplet starts: a cell of the
    /// interior, chosen pseudo-randomly. Returns nothing when no droplet is
    /// left.
    pub fn next_start(&mut self) -> (start: Option<(usize, usize)>)
        requires
            old(self).wf(),
        ensures
            final(self).wf(),
            final(self).grid_width() == old(self).grid_width(),
            final(self).grid_height() == old(self).grid_height(),
            match start {
                Some((x, y)) => {
                    &&& old(self).remaining() > 0
                    &&& final(self).remaining() == old(self).remaining() - 1
                    &&& interior(
                        old(self).grid_width(),
                        old(self).grid_height(),
                        x as int,
                        y as int,
                    )
                },
                None => old(self).remaining() == 0 && final(self).remaining() == 0,
            },
    {
        if self.left == 0 {
            return None;
        }
        let x = pick_between(&mut self.rng, 1, self.width - 1);
        let y = pick_between(&mut self.rng, 1, self.height - 1);
        self.left = self.left - 1;
        Some((x, y))
    }
}

} // verus!
