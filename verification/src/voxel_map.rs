//! The outcome of a partitioning: for every voxel the maximum that its
//! basin belongs to, and the dense numbering of those maxima.

use std::collections::HashMap;
use vstd::prelude::*;

verus! {

broadcast use vstd::std_specs::hash::group_hash_axioms;

/// The maxima that stand for a basin: the list itself, without a leading
/// vacuum entry if there is one.
pub open spec fn basins(maxima: Seq<isize>) -> Seq<isize> {
    if maxima.len() > 0 && maxima[0] < 0 {
        maxima.subrange(1, maxima.len() as int)
    } else {
        maxima
    }
}

/// The dense numbering of a list of maxima: each maximum is mapped to its
/// place in the list, a later entry replacing an earlier equal one.
pub open spec fn basin_index(basins: Seq<isize>) -> Map<isize, usize>
    decreases basins.len(),
{
    if basins.len() == 0 {
        Map::empty()
    } else {
        basin_index(basins.drop_last()).insert(basins.last(), (basins.len() - 1) as usize)
    }
}

/// The numbering knows exactly the listed maxima and gives each a place at
/// which it stands in the list; where no maximum is listed twice, that is
/// its only place.
pub proof fn lemma_basin_index(basins: Seq<isize>)
    requires
        basins.len() <= usize::MAX,
    ensures
        forall|m: isize| #[trigger] basin_index(basins).contains_key(m) <==> basins.contains(m),
        forall|m: isize| #[trigger]
            basin_index(basins).contains_key(m) ==> basin_index(basins)[m] < basins.len()
                && basins[basin_index(basins)[m] as int] == m,
        basins.no_duplicates() ==> forall|b: int|
            0 <= b < basins.len() ==> #[trigger] basin_index(basins)[basins[b]] == b,
    decreases basins.len(),
{
    if basins.len() > 0 {
        let front = basins.drop_last();
        let last = basins.last();
        let place = (basins.len() - 1) as usize;
        lemma_basin_index(front);
        assert(basin_index(basins) == basin_index(front).insert(last, place));
        assert forall|m: isize| #[trigger]
            basin_index(basins).contains_key(m) <==> basins.contains(m) by {
            if m != last {
                assert(basin_index(basins).contains_key(m) == basin_index(front).contains_key(m));
                if basins.contains(m) {
                    let b = choose|b: int| 0 <= b < basins.len() && basins[b] == m;
                    assert(front[b] == m);
                }
                if front.contains(m) {
                    let b = choose|b: int| 0 <= b < front.len() && front[b] == m;
                    assert(basins[b] == m);
                }
            } else {
                assert(basins[basins.len() - 1] == m);
            }
        }
        assert forall|m: isize| #[trigger] basin_index(basins).contains_key(m) implies basin_index(
            basins,
        )[m] < basins.len() && basins[basin_index(basins)[m] as int] == m by {
            if m != last {
                assert(basin_index(front).contains_key(m));
                assert(front[basin_index(front)[m] as int] == m);
            }
        }
        if basins.no_duplicates() {
            assert forall|b: int| 0 <= b < basins.len() implies #[trigger] basin_index(
                basins,
            )[basins[b]] == b by {
                if b < front.len() {
                    assert(front[b] == basins[b]);
                    assert(basins[b] != basins[basins.len() - 1]);
                    assert(basin_index(front)[front[b]] == b);
                }
            }
        }
    }
}

/// The number of voxels of `map` that are assigned to `maximum`.
pub open spec fn basin_volume(map: Seq<isize>, maximum: isize) -> nat
    decreases map.len(),
{
    if map.len() == 0 {
        0
    } else {
        basin_volume(map.drop_last(), maximum) + if map.last() == maximum {
            1nat
        } else {
            0nat
        }
    }
}

/// The number of voxels of `map` that are vacuum.
pub open spec fn vacuum_volume(map: Seq<isize>) -> nat
    decreases map.len(),
{
    if map.len() == 0 {
        0
    } else {
        vacuum_volume(map.drop_last()) + if map.last() < 0 {
            1nat
        } else {
            0nat
        }
    }
}

/// The sum of a list of volumes.
pub open spec fn total_volume(volumes: Seq<usize>) -> nat
    decreases volumes.len(),
{
    if volumes.len() == 0 {
        0
    } else {
        total_volume(volumes.drop_last()) + volumes.last() as nat
    }
}

/// The number of voxels of `map` that are assigned to one of `basins`,
/// counted basin by basin.
spec fn basins_volume(map: Seq<isize>, basins: Seq<isize>) -> nat
    decreases basins.len(),
{
    if basins.len() == 0 {
        0
    } else {
        basins_volume(map, basins.drop_last()) + basin_volume(map, basins.last())
    }
}

/// No basin and no vacuum holds more voxels than the map has.
proof fn lemma_volume_bound(map: Seq<isize>, maximum: isize)
    ensures
        basin_volume(map, maximum) <= map.len(),
        vacuum_volume(map) <= map.len(),
    decreases map.len(),
{
    if map.len() > 0 {
        lemma_volume_bound(map.drop_last(), maximum);
    }
}

/// Volumes that are those of the basins, one by one, add up to the voxels
/// assigned to the basins.
proof fn lemma_total_of_basin_volumes(map: Seq<isize>, basins: Seq<isize>, volumes: Seq<usize>)
    requires
        volumes.len() == basins.len(),
        forall|b: int|
            0 <= b < basins.len() ==> #[trigger] volumes[b] == basin_volume(map, basins[b]),
    ensures
        total_volume(volumes) == basins_volume(map, basins),
    decreases basins.len(),
{
    if basins.len() > 0 {
        lemma_total_of_basin_volumes(map, basins.drop_last(), volumes.drop_last());
    }
}

/// One more voxel adds one to the voxels assigned to the basins if its
/// maximum is among them, and nothing otherwise.
proof fn lemma_basins_volume_push(map: Seq<isize>, maximum: isize, basins: Seq<isize>)
    requires
        basins.no_duplicates(),
    ensures
        basins_volume(map.push(maximum), basins) == basins_volume(map, basins) + if basins.contains(
            maximum,
        ) {
            1nat
        } else {
            0nat
        },
    decreases basins.len(),
{
    assert(map.push(maximum).drop_last() == map);
    if basins.len() > 0 {
        let front = basins.drop_last();
        lemma_basins_volume_push(map, maximum, front);
        if front.contains(maximum) {
            let b = choose|b: int| 0 <= b < front.len() && front[b] == maximum;
            assert(basins[b] == maximum);
            assert(basins[basins.len() - 1] != basins[b]);
        } else if basins.contains(maximum) {
            let b = choose|b: int| 0 <= b < basins.len() && basins[b] == maximum;
            if b < front.len() {
                assert(front[b] == maximum);
            }
        } else {
            assert(basins[basins.len() - 1] != maximum);
        }
    }
}

/// Where every voxel is vacuum or assigned to a listed basin, the voxels of
/// the basins and of the vacuum are all the voxels.
proof fn lemma_volumes_cover(map: Seq<isize>, basins: Seq<isize>)
    requires
        basins.no_duplicates(),
        forall|b: int| 0 <= b < basins.len() ==> #[trigger] basins[b] >= 0,
        forall|p: int| 0 <= p < map.len() ==> map[p] < 0 || basins.contains(#[trigger] map[p]),
    ensures
        basins_volume(map, basins) + vacuum_volume(map) == map.len(),
    decreases map.len(),
{
    if map.len() == 0 {
        assert(map =~= Seq::empty());
        lemma_basins_volume_empty(basins);
    } else {
        let front = map.drop_last();
        let maximum = map.last();
        assert forall|p: int| 0 <= p < front.len() implies front[p] < 0 || basins.contains(
            #[trigger] front[p],
        ) by {
            assert(front[p] == map[p]);
        }
        lemma_volumes_cover(front, basins);
        lemma_basins_volume_push(front, maximum, basins);
        assert(front.push(maximum) == map);
        assert(maximum == map[map.len() - 1]);
        if maximum < 0 && basins.contains(maximum) {
            let b = choose|b: int| 0 <= b < basins.len() && basins[b] == maximum;
            assert(basins[b] >= 0);
        }
    }
}

/// An empty map has no voxels in any basin.
proof fn lemma_basins_volume_empty(basins: Seq<isize>)
    ensures
        basins_volume(Seq::empty(), basins) == 0,
    decreases basins.len(),
{
    if basins.len() > 0 {
        lemma_basins_volume_empty(basins.drop_last());
    }
}

/// A numbering of maxima of which none is listed twice has one entry for
/// each of them.
proof fn lemma_basin_index_len(basins: Seq<isize>)
    requires
        basins.no_duplicates(),
        basins.len() <= usize::MAX,
    ensures
        basin_index(basins).dom().finite(),
        basin_index(basins).len() == basins.len(),
    decreases basins.len(),
{
    if basins.len() > 0 {
        let front = basins.drop_last();
        lemma_basin_index_len(front);
        lemma_basin_index(front);
        if front.contains(basins.last()) {
            let b = choose|b: int| 0 <= b < front.len() && front[b] == basins.last();
            assert(basins[b] == basins[basins.len() - 1]);
        }
        assert(!basin_index(front).contains_key(basins.last()));
    }
}

/// VoxelMap - structure for mapping the voxels to bader volumes.
pub struct VoxelMap {
    /// For every voxel the linear index of the maximum of its basin, or a
    /// negative number for vacuum.
    pub map: Vec<isize>,
    /// The maxima, optionally after a leading vacuum entry.
    pub bader_maxima: Vec<isize>,
    /// The dense basin number of every maximum.
    pub index: HashMap<isize, usize>,
}

impl VoxelMap {
    /// The maxima that stand for a basin, in the order of their numbers.
    pub open spec fn basins(&self) -> Seq<isize> {
        basins(self.bader_maxima@)
    }

    /// Whether voxel `p` is vacuum.
    pub open spec fn is_vacuum(&self, p: int) -> bool {
        self.map[p] < 0
    }

    /// The map is complete: the maxima are voxel indices, none is listed
    /// twice, the numbering is theirs, and every voxel outside the vacuum
    /// is assigned to one of them.
    pub open spec fn wf(&self) -> bool {
        &&& self.index@ == basin_index(self.basins())
        &&& self.basins().no_duplicates()
        &&& forall|b: int| 0 <= b < self.basins().len() ==> #[trigger] self.basins()[b] >= 0
        &&& forall|p: int|
            0 <= p < self.map.len() ==> self.is_vacuum(p) || self.basins().contains(
                #[trigger] self.map[p],
            )
    }

    /// The number of the basin of voxel `p`, unless it is vacuum.
    pub open spec fn basin_at(&self, p: int) -> Option<usize> {
        if self.is_vacuum(p) {
            None
        } else {
            Some(self.index@[self.map[p]])
        }
    }

    /// All six voxels that the shifts lead to from `p` have the assignment
    /// of `p`.
    pub open spec fn known(&self, p: int, shifts: [isize; 6]) -> bool {
        forall|j: int| 0 <= j < 6 ==> self.map[p] == self.map[p + #[trigger] shifts[j]]
    }

    /// `volumes` holds, for every basin, the number of voxels assigned to
    /// its maximum, and `vacuum` is the number of voxels in the vacuum.
    pub open spec fn is_volume_sum(&self, volumes: Seq<usize>, vacuum: usize) -> bool {
        &&& volumes.len() == self.basins().len()
        &&& forall|b: int|
            0 <= b < volumes.len() ==> #[trigger] volumes[b] == basin_volume(
                self.map@,
                self.basins()[b],
            )
        &&& vacuum == vacuum_volume(self.map@)
    }

    /// The volumes of the basins and of the vacuum add up to the number of
    /// voxels.
    pub proof fn lemma_volume_conservation(&self, volumes: Seq<usize>, vacuum: usize)
        requires
            self.wf(),
            self.is_volume_sum(volumes, vacuum),
        ensures
            total_volume(volumes) + vacuum == self.map.len(),
    {
        lemma_total_of_basin_volumes(self.map@, self.basins(), volumes);
        lemma_volumes_cover(self.map@, self.basins());
    }

    /// Summing the volumes of one map twice gives the same volumes.
    pub proof fn lemma_volume_sum_repeats(
        &self,
        volumes: Seq<usize>,
        vacuum: usize,
        again: Seq<usize>,
        vacuum_again: usize,
    )
        requires
            self.is_volume_sum(volumes, vacuum),
            self.is_volume_sum(again, vacuum_again),
        ensures
            volumes == again,
            vacuum == vacuum_again,
    {
        assert(volumes =~= again);
    }

    /// Initialise the structure. Create a HashMap to index the volumes.
    pub fn new(map: Vec<isize>, bader_maxima: Vec<isize>) -> (voxel_map: VoxelMap)
        ensures
            voxel_map.map == map,
            voxel_map.bader_maxima == bader_maxima,
            voxel_map.index@ == basin_index(basins(bader_maxima@)),
    {
        let mut index: HashMap<isize, usize> = HashMap::new();
        let start: usize = if bader_maxima.len() > 0 && bader_maxima[0] < 0 {
            1
        } else {
            0
        };
        let ghost listed = basins(bader_maxima@);
        let mut i: usize = start;
        while i < bader_maxima.len()
            invariant
                start <= i <= bader_maxima.len(),
                start <= 1,
                listed == bader_maxima@.subrange(start as int, bader_maxima.len() as int),
                index@ == basin_index(listed.take(i - start)),
            decreases bader_maxima.len() - i,
        {
            proof {
                let next = listed.take(i - start + 1);
                assert(next.drop_last() == listed.take(i - start));
                assert(next.last() == bader_maxima[i as int]);
            }
            index.insert(bader_maxima[i], i - start);
            i += 1;
        }
        proof {
            assert(listed.take(listed.len() as int) == listed);
        }
        VoxelMap { map, bader_maxima, index }
    }

    /// Is the point known, use shifts to move around.
    pub fn is_known(&self, p: usize, shifts: [isize; 6]) -> (known: bool)
        requires
            p < self.map.len(),
            forall|j: int| 0 <= j < 6 ==> 0 <= p + #[trigger] shifts[j] < self.map.len(),
        ensures
            known == self.known(p as int, shifts),
    {
        let mut j: usize = 0;
        while j < 6
            invariant
                0 <= j <= 6,
                p < self.map.len(),
                forall|i: int| 0 <= i < 6 ==> 0 <= p + #[trigger] shifts[i] < self.map.len(),
                forall|i: int| 0 <= i < j ==> self.map[p as int] == self.map[p + #[trigger] shifts[i]],
            decreases 6 - j,
        {
            let q = (p as i128 + shifts[j] as i128) as usize;
            if self.map[p] != self.map[q] {
                return false;
            }
            j += 1;
        }
        true
    }

    /// The number of the basin that voxel `p` is assigned to, or `None` for
    /// a voxel in the vacuum.
    pub fn basin(&self, p: usize) -> (basin: Option<usize>)
        requires
            self.wf(),
            p < self.map.len(),
        ensures
            basin == self.basin_at(p as int),
            basin matches Some(b) ==> b < self.basins().len() && self.basins()[b as int]
                == self.map[p as int],
    {
        let maximum = self.map[p];
        if maximum < 0 {
            return None;
        }
        proof {
            assert(self.basins().len() <= self.bader_maxima.len());
            lemma_basin_index(self.basins());
        }
        match self.index.get(&maximum) {
            Some(b) => Some(*b),
            None => None,
        }
    }

    /// Whether the map is complete, for a numbering that `new` made.
    pub fn is_complete(&self) -> (complete: bool)
        requires
            self.index@ == basin_index(self.basins()),
        ensures
            complete == self.wf(),
    {
        let start: usize = if self.bader_maxima.len() > 0 && self.bader_maxima[0] < 0 {
            1
        } else {
            0
        };
        let ghost listed = self.basins();
        proof {
            lemma_basin_index(listed);
        }
        let mut i: usize = start;
        while i < self.bader_maxima.len()
            invariant
                start <= i <= self.bader_maxima.len(),
                start <= 1,
                listed == self.bader_maxima@.subrange(start as int, self.bader_maxima.len() as int),
                listed == self.basins(),
                self.index@ == basin_index(listed),
                forall|m: isize| #[trigger]
                    basin_index(listed).contains_key(m) ==> basin_index(listed)[m] < listed.len()
                        && listed[basin_index(listed)[m] as int] == m,
                forall|m: isize| #[trigger]
                    basin_index(listed).contains_key(m) <==> listed.contains(m),
                forall|b: int|
                    0 <= b < i - start ==> #[trigger] listed[b] >= 0 && basin_index(
                        listed,
                    )[listed[b]] == b,
            decreases self.bader_maxima.len() - i,
        {
            let maximum = self.bader_maxima[i];
            assert(listed[i - start] == maximum);
            if maximum < 0 {
                return false;
            }
            match self.index.get(&maximum) {
                Some(b) => {
                    if *b != i - start {
                        assert(!listed.no_duplicates()) by {
                            assert(listed[*b as int] == listed[i - start]);
                        }
                        return false;
                    }
                },
                None => {
                    return false;
                },
            }
            i += 1;
        }
        assert(listed.no_duplicates()) by {
            assert forall|a: int, b: int|
                0 <= a < listed.len() && 0 <= b < listed.len() && a != b implies listed[a]
                != listed[b] by {
                assert(basin_index(listed)[listed[a]] == a);
                assert(basin_index(listed)[listed[b]] == b);
            }
        }
        let mut p: usize = 0;
        while p < self.map.len()
            invariant
                0 <= p <= self.map.len(),
                listed == self.basins(),
                self.index@ == basin_index(listed),
                forall|m: isize| #[trigger]
                    basin_index(listed).contains_key(m) <==> listed.contains(m),
                forall|q: int|
                    0 <= q < p ==> self.is_vacuum(q) || listed.contains(#[trigger] self.map[q]),
            decreases self.map.len() - p,
        {
            let maximum = self.map[p];
            if maximum >= 0 && !self.index.contains_key(&maximum) {
                return false;
            }
            p += 1;
        }
        true
    }

    /// Count the voxels of each bader volume and of the vacuum.
    pub fn volume_sum(&self) -> (sum: (Vec<usize>, usize))
        requires
            self.wf(),
        ensures
            self.is_volume_sum(sum.0@, sum.1),
    {
        proof {
            assert(self.basins().len() <= self.bader_maxima.len());
            lemma_basin_index(self.basins());
        }
        let mut vacuum_volume: usize = 0;
        let mut bader_volume: Vec<usize> = vec![0usize; self.index.len()];
        assert(self.index@.len() == self.basins().len()) by {
            lemma_basin_index_len(self.basins());
        }
        let mut i: usize = 0;
        while i < self.map.len()
            invariant
                self.wf(),
                0 <= i <= self.map.len(),
                bader_volume.len() == self.basins().len(),
                forall|b: int|
                    0 <= b < bader_volume.len() ==> #[trigger] bader_volume[b] == basin_volume(
                        self.map@.take(i as int),
                        self.basins()[b],
                    ),
                vacuum_volume == self::vacuum_volume(self.map@.take(i as int)),
            decreases self.map.len() - i,
        {
            let ghost seen = self.map@.take(i as int);
            let ghost next = self.map@.take(i + 1);
            proof {
                assert(next.drop_last() == seen);
                assert(next.last() == self.map[i as int]);
                lemma_volume_bound(next, self.map[i as int]);
            }
            match self.basin(i) {
                None => {
                    vacuum_volume += 1;
                },
                Some(b) => {
                    bader_volume.set(b, bader_volume[b] + 1);
                    assert forall|c: int| 0 <= c < bader_volume.len() implies #[trigger] bader_volume[c]
                        == basin_volume(next, self.basins()[c]) by {
                        if c != b {
                            assert(self.basins()[c] != self.basins()[b as int]);
                        }
                    }
                },
            }
            i += 1;
        }
        proof {
            assert(self.map@.take(self.map.len() as int) == self.map@);
        }
        (bader_volume, vacuum_volume)
    }
}

} // verus!
