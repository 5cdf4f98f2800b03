//! Where volcanoes are placed, and how their cones are stamped on the
//! field. The caller shapes a cone around a center chosen here, as a list of
//! cells with the elevation that the cone reaches there; stamping raises
//! each cell to it.

use crate::config::in_unit_interval;
use crate::elevation::{elevation_key, lemma_stamp_only_raises, raise_to, raised};
use crate::rng::{pick_between, seeded};
use vstd::prelude::*;

verus! {

/// The seed of a world is combined with this constant, by exclusive or, to
/// seed the placement of its volcanoes.
pub const PLACEMENT_SEED_MASK: u64 = 0xF00D_CAFE;

/// Whether a cone of the given radius leaves room for a center along an
/// axis of the given length: the center keeps a distance of `radius` from
/// both ends.
pub open spec fn has_room(length: int, radius: int) -> bool {
    2 * radius < length
}

/// Decides whether a cone of the given radius leaves room for a center.
pub fn leaves_room(length: usize, radius: usize) -> (room: bool)
    ensures
        room == has_room(length as int, radius as int),
{
    radius < length && radius < length - radius
}

/// Whether a center keeps a distance of `radius` from every edge of the
/// grid.
pub open spec fn well_placed(center: (usize, usize), width: int, height: int, radius: int) -> bool {
    &&& radius <= center.0 < width - radius
    &&& radius <= center.1 < height - radius
}

/// Chooses the centers of `count` volcanoes, each at a distance of at least
/// `radius` from every edge of the grid. The choice is pseudo-random and
/// seeded by the seed of the world.
pub fn volcano_centers(width: usize, height: usize, radius: usize, count: u32, seed: u64) -> (centers:
    Vec<(usize, usize)>)
    requires
        count > 0 ==> has_room(width as int, radius as int) && has_room(
            height as int,
            radius as int,
        ),
    ensures
        centers@.len() == count,
        forall|k: int|
            0 <= k < count ==> well_placed(
                #[trigger] centers@[k],
                width as int,
                height as int,
                radius as int,
            ),
{
    let mut rng = seeded(seed ^ PLACEMENT_SEED_MASK);
    let mut centers: Vec<(usize, usize)> = Vec::new();
    let mut placed: u32 = 0;
    while placed < count
        invariant
            placed <= count,
            count > 0 ==> has_room(width as int, radius as int) && has_room(
                height as int,
                radius as int,
            ),
            centers@.len() == placed,
            forall|k: int|
                0 <= k < placed ==> well_placed(
                    #[trigger] centers@[k],
                    width as int,
                    height as int,
                    radius as int,
                ),
        decreases count - placed,
    {
        let x = pick_between(&mut rng, radius, width - radius);
        let y = pick_between(&mut rng, radius, height - radius);
        centers.push((x, y));
        placed = placed + 1;
    }
    centers
}

/// The field after the cells of `cones`, each an index with the elevation
/// that a cone reaches there, were stamped on it in order.
pub open spec fn stamped(field: Seq<u32>, cones: Seq<(usize, u32)>) -> Seq<u32>
    decreases cones.len(),
{
    if cones.len() == 0 {
        field
    } else {
        let before = stamped(field, cones.drop_last());
        let cell = cones.last().0 as int;
        before.update(cell, raised(before[cell], cones.last().1))
    }
}

/// Whether every cell of `cones` is a cell of a field of `cells` cells.
pub open spec fn on_field(cones: Seq<(usize, u32)>, cells: nat) -> bool {
    forall|k: int| 0 <= k < cones.len() ==> (#[trigger] cones[k]).0 < cells
}

/// Stamps cones on the elevation field: every cell named is raised to the
/// elevation given with it, and stays within [0, 1].
pub fn stamp(heights: &mut Vec<u32>, cones: &Vec<(usize, u32)>)
    requires
        on_field(cones@, old(heights)@.len()),
    ensures
        final(heights)@ == stamped(old(heights)@, cones@),
        final(heights)@.len() == old(heights)@.len(),
{
    let mut k: usize = 0;
    while k < cones.len()
        invariant
            k <= cones@.len(),
            on_field(cones@, old(heights)@.len()),
            heights@.len() == old(heights)@.len(),
            heights@ == stamped(old(heights)@, cones@.take(k as int)),
        decreases cones.len() - k,
    {
        let cell: usize = cones[k].0;
        let target: u32 = cones[k].1;
        let new: u32 = raise_to(heights[cell], target);
        heights.set(cell, new);
        proof {
            assert(cones@.take(k + 1).drop_last() =~= cones@.take(k as int));
            assert(cones@.take(k + 1).last() == cones@[k as int]);
        }
        k = k + 1;
    }
    assert(cones@.take(k as int) =~= cones@);
}

/// Stamping keeps the number of cells.
pub proof fn lemma_stamped_keeps_length(field: Seq<u32>, cones: Seq<(usize, u32)>)
    requires
        on_field(cones, field.len()),
    ensures
        stamped(field, cones).len() == field.len(),
    decreases cones.len(),
{
    if cones.len() > 0 {
        let earlier = cones.drop_last();
        assert forall|k: int| 0 <= k < earlier.len() implies (#[trigger] earlier[k]).0
            < field.len() by {
            assert(earlier[k] == cones[k]);
        }
        lemma_stamped_keeps_length(field, earlier);
        assert(cones[cones.len() - 1].0 < field.len());
    }
}

/// Stamping only raises terrain: on a field whose elevations lie in
/// [0, 1], every cell stays in [0, 1] and is not lower afterwards, and a
/// cell that no cone names is unchanged.
pub proof fn lemma_stamped_only_raises(field: Seq<u32>, cones: Seq<(usize, u32)>)
    requires
        on_field(cones, field.len()),
        forall|i: int| 0 <= i < field.len() ==> in_unit_interval(#[trigger] field[i]),
    ensures
        stamped(field, cones).len() == field.len(),
        forall|i: int|
            0 <= i < field.len() ==> in_unit_interval(#[trigger] stamped(field, cones)[i]),
        forall|i: int|
            0 <= i < field.len() ==> elevation_key(#[trigger] stamped(field, cones)[i])
                >= elevation_key(field[i]),
        forall|i: int|
            0 <= i < field.len() && (forall|k: int|
                0 <= k < cones.len() ==> (#[trigger] cones[k]).0 != i) ==> #[trigger] stamped(
                field,
                cones,
            )[i] == field[i],
    decreases cones.len(),
{
    if cones.len() > 0 {
        let earlier = cones.drop_last();
        let before = stamped(field, earlier);
        let cell = cones.last().0 as int;
        assert(cones[cones.len() - 1].0 < field.len());
        assert forall|k: int| 0 <= k < earlier.len() implies (#[trigger] earlier[k]).0
            < field.len() by {
            assert(earlier[k] == cones[k]);
        }
        lemma_stamped_only_raises(field, earlier);
        lemma_stamp_only_raises(before[cell], cones.last().1);
        assert forall|i: int|
            0 <= i < field.len() && (forall|k: int|
                0 <= k < cones.len() ==> (#[trigger] cones[k]).0 != i) implies #[trigger] stamped(
            field,
            cones,
        )[i] == field[i] by {
            assert(cones[cones.len() - 1].0 != i);
            assert forall|k: int| 0 <= k < earlier.len() implies (#[trigger] earlier[k]).0
                != i by {
                assert(earlier[k] == cones[k]);
            }
        }
    }
}

/// A cell that the cones name once is raised to the elevation given with
/// it: it takes the higher of its old elevation and that one, brought into
/// [0, 1].
pub proof fn lemma_stamped_once(field: Seq<u32>, cones: Seq<(usize, u32)>, k: int)
    requires
        on_field(cones, field.len()),
        0 <= k < cones.len(),
        forall|m: int| 0 <= m < cones.len() && m != k ==> (#[trigger] cones[m]).0 != cones[k].0,
    ensures
        stamped(field, cones)[cones[k].0 as int] == raised(field[cones[k].0 as int], cones[k].1),
    decreases cones.len(),
{
    let cell = cones[k].0 as int;
    let earlier = cones.drop_last();
    assert forall|m: int| 0 <= m < earlier.len() implies (#[trigger] earlier[m]).0
        < field.len() by {
        assert(earlier[m] == cones[m]);
    }
    lemma_stamped_keeps_length(field, earlier);
    if k == cones.len() - 1 {
        lemma_stamped_untouched(field, earlier, cell);
    } else {
        assert(cones[cones.len() - 1].0 != cones[k].0);
        assert(earlier[k] == cones[k]);
        assert forall|m: int| 0 <= m < earlier.len() && m != k implies (#[trigger] earlier[m]).0
            != earlier[k].0 by {
            assert(earlier[m] == cones[m]);
        }
        lemma_stamped_once(field, earlier, k);
    }
}

/// A cell that no cone names is unchanged.
pub proof fn lemma_stamped_untouched(field: Seq<u32>, cones: Seq<(usize, u32)>, cell: int)
    requires
        on_field(cones, field.len()),
        0 <= cell < field.len(),
        forall|m: int| 0 <= m < cones.len() ==> (#[trigger] cones[m]).0 != cell,
    ensures
        stamped(field, cones)[cell] == field[cell],
    decreases cones.len(),
{
    if cones.len() > 0 {
        let earlier = cones.drop_last();
        assert(cones[cones.len() - 1].0 != cell);
        assert forall|m: int| 0 <= m < earlier.len() implies (#[trigger] earlier[m]).0
            < field.len() && earlier[m].0 != cell by {
            assert(earlier[m] == cones[m]);
        }
        lemma_stamped_keeps_length(field, earlier);
        lemma_stamped_untouched(field, earlier, cell);
    }
}

} // verus!
