//! The form in which a map is kept outside the program: plain lists and
//! numbers, with the resources as a list of entries rather than a table.

use crate::types::Position;
use crate::world::{lemma_cell_index, lemma_index_cell, Resource, WorldMap, MAX_CELLS};
use std::collections::HashMap;
use vstd::prelude::*;

verus! {

broadcast use vstd::std_specs::hash::group_hash_axioms;

/// A map written down: its size, the terrain code and the discovery mark of
/// every cell row by row, the resources as `(position, resource)` entries,
/// and the seed the map was generated from.
#[derive(Debug, PartialEq, Eq)]
pub struct MapRecord {
    pub width: usize,
    pub height: usize,
    pub terrain: Vec<Vec<u8>>,
    pub resources: Vec<(Position, Resource)>,
    pub discovered: Vec<Vec<bool>>,
    pub seed: u64,
}

/// The table that a list of entries stands for on a grid of the given
/// width. Where two entries name one cell, the later one counts.
pub open spec fn table_of(entries: Seq<(Position, Resource)>, width: int) -> Map<usize, Resource>
    decreases entries.len(),
{
    if entries.len() == 0 {
        Map::empty()
    } else {
        table_of(entries.drop_last(), width).insert(
            entry_index(entries.last(), width) as usize,
            entries.last().1,
        )
    }
}

/// The index of the cell that an entry names.
pub open spec fn entry_index(entry: (Position, Resource), width: int) -> int {
    entry.0.1 * width + entry.0.0
}

impl MapRecord {
    /// The record has the shape of a map: a size within the limits, one
    /// terrain code and one discovery mark for every cell, and no resource
    /// off the grid.
    pub open spec fn valid(&self) -> bool {
        &&& 0 < self.width
        &&& 0 < self.height
        &&& self.width * self.height <= MAX_CELLS
        &&& self.terrain@.len() == self.height
        &&& forall|y: int| 0 <= y < self.height ==> (#[trigger] self.terrain@[y])@.len() == self.width
        &&& self.discovered@.len() == self.height
        &&& forall|y: int|
            0 <= y < self.height ==> (#[trigger] self.discovered@[y])@.len() == self.width
        &&& forall|i: int|
            0 <= i < self.resources@.len() ==> (#[trigger] self.resources@[i]).0.0 < self.width
                && self.resources@[i].0.1 < self.height
    }

    /// The record holds exactly what the map holds.
    pub open spec fn describes(&self, map: &WorldMap) -> bool {
        &&& self.width == map.width
        &&& self.height == map.height
        &&& self.seed == map.seed
        &&& forall|x: int, y: int|
            0 <= x < self.width && 0 <= y < self.height ==> #[trigger] self.terrain@[y]@[x]
                == map.terrain@[y]@[x]
        &&& forall|x: int, y: int|
            0 <= x < self.width && 0 <= y < self.height ==> #[trigger] self.discovered@[y]@[x]
                == map.discovered@[y]@[x]
        &&& table_of(self.resources@, self.width as int) == map.resources@
    }
}

impl WorldMap {
    /// Two maps that agree in size, seed, and in the terrain, the discovery
    /// mark and the resource of every cell.
    pub open spec fn equivalent(&self, other: &WorldMap) -> bool {
        &&& self.width == other.width
        &&& self.height == other.height
        &&& self.seed == other.seed
        &&& self.resources@ == other.resources@
        &&& forall|x: int, y: int|
            self.in_bounds(x, y) ==> #[trigger] self.terrain@[y]@[x] == other.terrain@[y]@[x]
        &&& forall|x: int, y: int|
            self.in_bounds(x, y) ==> #[trigger] self.discovered_at(x, y) == other.discovered_at(x, y)
    }

    /// Writes the map down. The resources are listed in the order of their
    /// cells, row by row, each cell once.
    pub fn to_record(&self) -> (record: MapRecord)
        requires
            self.wf(),
        ensures
            record.valid(),
            record.describes(self),
            forall|i: int, j: int|
                0 <= i < j < record.resources@.len() ==> entry_index(
                    #[trigger] record.resources@[i],
                    self.width as int,
                ) < entry_index(#[trigger] record.resources@[j], self.width as int),
    {
        let terrain = copy_codes(&self.terrain, self.width, self.height);
        let discovered = copy_marks(&self.discovered, self.width, self.height);
        let mut entries: Vec<(Position, Resource)> = Vec::new();
        let n: usize = self.width * self.height;
        let mut k: usize = 0;
        let ghost width = self.width as int;
        while k < n
            invariant
                self.wf(),
                n == self.width * self.height,
                width == self.width,
                0 <= k <= n,
                forall|i: int|
                    0 <= i < entries@.len() ==> (#[trigger] entries@[i]).0.0 < self.width
                        && entries@[i].0.1 < self.height,
                table_of(entries@, width) == self.resources@.restrict(
                    Set::new(|key: usize| key < k),
                ),
                forall|i: int|
                    0 <= i < entries@.len() ==> entry_index(#[trigger] entries@[i], width) < k,
                forall|i: int, j: int|
                    0 <= i < j < entries@.len() ==> entry_index(#[trigger] entries@[i], width)
                        < entry_index(#[trigger] entries@[j], width),
            decreases n - k,
        {
            proof {
                lemma_index_cell(self.width as int, self.height as int, k as int);
            }
            let ghost before = entries@;
            match self.resources.get(&k) {
                Some(resource) => {
                    let x = k % self.width;
                    let y = k / self.width;
                    entries.push(((x, y), *resource));
                    proof {
                        assert(entries@.drop_last() =~= before);
                        assert(entries@.last() == ((x, y), *resource));
                        assert(entry_index(entries@.last(), width) == k);
                        assert(table_of(entries@, width) == table_of(before, width).insert(
                            k,
                            *resource,
                        ));
                        assert(self.resources@.contains_key(k));
                        assert(self.resources@[k] == *resource);
                    }
                },
                None => {
                    assert(!self.resources@.contains_key(k));
                },
            }
            assert(table_of(entries@, width) =~= self.resources@.restrict(
                Set::new(|key: usize| key < k + 1),
            ));
            k += 1;
        }
        proof {
            assert(table_of(entries@, width) =~= self.resources@);
        }
        MapRecord {
            width: self.width,
            height: self.height,
            terrain,
            resources: entries,
            discovered,
            seed: self.seed,
        }
    }

    /// Reads a map back from a record. The result is `None` exactly when
    /// the record has not the shape of a map.
    pub fn from_record(record: &MapRecord) -> (map: Option<WorldMap>)
        ensures
            map.is_some() <==> record.valid(),
            match map {
                Some(m) => m.wf() && record.describes(&m),
                None => true,
            },
    {
        if record.width == 0 || record.height == 0 {
            return None;
        }
        if record.width > MAX_CELLS || record.height > MAX_CELLS {
            proof {
                assert(record.width * record.height > MAX_CELLS) by (nonlinear_arith)
                    requires
                        record.width > MAX_CELLS || record.height > MAX_CELLS,
                        record.width >= 1,
                        record.height >= 1,
                ;
            }
            return None;
        }
        proof {
            assert(record.width * record.height <= MAX_CELLS * MAX_CELLS) by (nonlinear_arith)
                requires
                    record.width <= MAX_CELLS,
                    record.height <= MAX_CELLS,
            ;
        }
        let cells: u64 = (record.width as u64) * (record.height as u64);
        if cells > MAX_CELLS as u64 {
            return None;
        }
        if record.terrain.len() != record.height || record.discovered.len() != record.height {
            return None;
        }
        let mut y: usize = 0;
        while y < record.height
            invariant
                0 <= y <= record.height,
                record.terrain@.len() == record.height,
                record.discovered@.len() == record.height,
                forall|r: int| 0 <= r < y ==> (#[trigger] record.terrain@[r])@.len() == record.width,
                forall|r: int|
                    0 <= r < y ==> (#[trigger] record.discovered@[r])@.len() == record.width,
            decreases record.height - y,
        {
            if record.terrain[y].len() != record.width || record.discovered[y].len()
                != record.width {
                return None;
            }
            y += 1;
        }
        let mut i: usize = 0;
        while i < record.resources.len()
            invariant
                0 <= i <= record.resources@.len(),
                forall|j: int|
                    0 <= j < i ==> (#[trigger] record.resources@[j]).0.0 < record.width
                        && record.resources@[j].0.1 < record.height,
            decreases record.resources.len() - i,
        {
            let position = record.resources[i].0;
            if position.0 >= record.width || position.1 >= record.height {
                return None;
            }
            i += 1;
        }
        assert(record.valid());
        let terrain = copy_codes(&record.terrain, record.width, record.height);
        let discovered = copy_marks(&record.discovered, record.width, record.height);
        let mut resources: HashMap<usize, Resource> = HashMap::new();
        let mut j: usize = 0;
        let ghost width = record.width as int;
        while j < record.resources.len()
            invariant
                record.valid(),
                width == record.width,
                0 <= j <= record.resources@.len(),
                resources@ == table_of(record.resources@.take(j as int), width),
                forall|key: usize| #[trigger]
                    resources@.contains_key(key) ==> key < record.width * record.height,
            decreases record.resources.len() - j,
        {
            let entry = record.resources[j];
            proof {
                lemma_cell_index(
                    record.width as int,
                    record.height as int,
                    entry.0.0 as int,
                    entry.0.1 as int,
                );
                assert(entry.0.1 * record.width <= entry.0.1 * record.width + entry.0.0);
                assert(record.resources@.take(j + 1).drop_last() =~= record.resources@.take(
                    j as int,
                ));
            }
            let key = entry.0.1 * record.width + entry.0.0;
            resources.insert(key, entry.1);
            j += 1;
        }
        proof {
            assert(record.resources@.take(record.resources@.len() as int) =~= record.resources@);
        }
        Some(
            WorldMap {
                width: record.width,
                height: record.height,
                terrain,
                resources,
                discovered,
                seed: record.seed,
            },
        )
    }
}

/// A copy of a grid of terrain codes.
pub fn copy_codes(grid: &Vec<Vec<u8>>, width: usize, height: usize) -> (copy: Vec<Vec<u8>>)
    requires
        grid@.len() == height,
        forall|y: int| 0 <= y < height ==> (#[trigger] grid@[y])@.len() == width,
    ensures
        copy@.len() == height,
        forall|y: int| 0 <= y < height ==> (#[trigger] copy@[y])@.len() == width,
        forall|x: int, y: int|
            0 <= x < width && 0 <= y < height ==> #[trigger] copy@[y]@[x] == grid@[y]@[x],
{
    let mut copy: Vec<Vec<u8>> = Vec::new();
    let mut y: usize = 0;
    while y < height
        invariant
            0 <= y <= height,
            grid@.len() == height,
            forall|r: int| 0 <= r < height ==> (#[trigger] grid@[r])@.len() == width,
            copy@.len() == y,
            forall|r: int| 0 <= r < y ==> (#[trigger] copy@[r])@.len() == width,
            forall|c: int, r: int|
                0 <= c < width && 0 <= r < y ==> #[trigger] copy@[r]@[c] == grid@[r]@[c],
        decreases height - y,
    {
        let mut row: Vec<u8> = Vec::new();
        let mut x: usize = 0;
        while x < width
            invariant
                0 <= x <= width,
                0 <= y < height,
                grid@.len() == height,
                grid@[y as int]@.len() == width,
                row@.len() == x,
                forall|c: int| 0 <= c < x ==> #[trigger] row@[c] == grid@[y as int]@[c],
            decreases width - x,
        {
            row.push(grid[y][x]);
            x += 1;
        }
        copy.push(row);
        y += 1;
    }
    copy
}

/// A copy of a grid of discovery marks.
pub fn copy_marks(grid: &Vec<Vec<bool>>, width: usize, height: usize) -> (copy: Vec<Vec<bool>>)
    requires
        grid@.len() == height,
        forall|y: int| 0 <= y < height ==> (#[trigger] grid@[y])@.len() == width,
    ensures
        copy@.len() == height,
        forall|y: int| 0 <= y < height ==> (#[trigger] copy@[y])@.len() == width,
        forall|x: int, y: int|
            0 <= x < width && 0 <= y < height ==> #[trigger] copy@[y]@[x] == grid@[y]@[x],
{
    let mut copy: Vec<Vec<bool>> = Vec::new();
    let mut y: usize = 0;
    while y < height
        invariant
            0 <= y <= height,
            grid@.len() == height,
            forall|r: int| 0 <= r < height ==> (#[trigger] grid@[r])@.len() == width,
            copy@.len() == y,
            forall|r: int| 0 <= r < y ==> (#[trigger] copy@[r])@.len() == width,
            forall|c: int, r: int|
                0 <= c < width && 0 <= r < y ==> #[trigger] copy@[r]@[c] == grid@[r]@[c],
        decreases height - y,
    {
        let mut row: Vec<bool> = Vec::new();
        let mut x: usize = 0;
        while x < width
            invariant
                0 <= x <= width,
                0 <= y < height,
                grid@.len() == height,
                grid@[y as int]@.len() == width,
                row@.len() == x,
                forall|c: int| 0 <= c < x ==> #[trigger] row@[c] == grid@[y as int]@[c],
            decreases width - x,
        {
            row.push(grid[y][x]);
            x += 1;
        }
        copy.push(row);
        y += 1;
    }
    copy
}

/// Writing a map down and reading it back gives a map that agrees with the
/// first in every cell: two maps that one record describes are equivalent.
pub proof fn lemma_record_round_trip(first: &WorldMap, record: &MapRecord, second: &WorldMap)
    requires
        record.describes(first),
        record.describes(second),
    ensures
        first.equivalent(second),
{
    assert forall|x: int, y: int| first.in_bounds(x, y) implies #[trigger] first.terrain@[y]@[x]
        == second.terrain@[y]@[x] by {
        assert(record.terrain@[y]@[x] == first.terrain@[y]@[x]);
        assert(record.terrain@[y]@[x] == second.terrain@[y]@[x]);
    }
    assert forall|x: int, y: int| first.in_bounds(x, y) implies #[trigger] first.discovered_at(
        x,
        y,
    ) == second.discovered_at(x, y) by {
        assert(record.discovered@[y]@[x] == first.discovered@[y]@[x]);
        assert(record.discovered@[y]@[x] == second.discovered@[y]@[x]);
    }
}

} // verus!
