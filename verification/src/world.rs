//! The grid world: terrain, a sparse table of resources, and the record of
//! which cells have been discovered.

use crate::rng::{draw_in_range, range_draw, rng_state, seeded_rng, seeded_state};
use crate::terrain::TerrainType;
use crate::types::{Position, ResourceType};
use std::collections::HashMap;
use vstd::prelude::*;

verus! {

broadcast use vstd::std_specs::hash::group_hash_axioms;

/// The largest number of cells a map may have. It keeps every path cost and
/// every distance on the map within `u32`.
pub const MAX_CELLS: usize = 0x3FFF_FFFF;

/// A resource lying on a cell: its kind and its amount.
pub type Resource = (ResourceType, u32);

/// The value that stands for 1 in a noise sample. Samples are noise values
/// brought to the range from 0 to 1 and counted in millionths.
pub const SAMPLE_SCALE: u32 = 1_000_000;

/// Terrain samples below this are plains.
pub const PLAIN_BELOW: u32 = 400_000;

/// Terrain samples below this, and not plains, are hills.
pub const HILL_BELOW: u32 = 700_000;

/// Terrain samples below this, and neither plains nor hills, are mountains.
/// All others are canyons.
pub const MOUNTAIN_BELOW: u32 = 850_000;

/// The figures that steer the placement of resources. Frequency and
/// thresholds are counted in millionths, as samples are.
#[derive(Debug, Clone, Copy, PartialEq, Eq)]
pub struct MapConstants {
    /// The step of the terrain noise from one cell to the next. The resource
    /// noise steps one and a half times as far.
    pub noise_frequency: u32,
    /// Resource samples above this hold energy in amounts from 30 up.
    pub energy_threshold: u32,
    /// Resource samples above this hold minerals in amounts from 20 up.
    pub mineral_threshold: u32,
    /// Resource samples above this hold energy in amounts from 10 up.
    pub scientific_threshold: u32,
    /// The largest amount a generated resource can have.
    pub max_resource_amount: u32,
}

impl MapConstants {
    /// The figures every generated map is made with.
    pub open spec fn standard() -> MapConstants {
        MapConstants {
            noise_frequency: 100_000,
            energy_threshold: 600_000,
            mineral_threshold: 700_000,
            scientific_threshold: 850_000,
            max_resource_amount: 100,
        }
    }
}

impl Default for MapConstants {
    fn default() -> (c: MapConstants)
        ensures
            c == MapConstants::standard(),
    {
        MapConstants {
            noise_frequency: 100_000,
            energy_threshold: 600_000,
            mineral_threshold: 700_000,
            scientific_threshold: 850_000,
            max_resource_amount: 100,
        }
    }
}

/// The terrain that a terrain sample stands for. The four bands share out
/// all samples between them, in ascending order.
pub open spec fn terrain_band(sample: u32) -> TerrainType {
    if sample < PLAIN_BELOW {
        TerrainType::Plain
    } else if sample < HILL_BELOW {
        TerrainType::Hill
    } else if sample < MOUNTAIN_BELOW {
        TerrainType::Mountain
    } else {
        TerrainType::Canyon
    }
}

/// The resource that a resource sample calls for: its kind and its least
/// amount. Samples at or below the lowest threshold call for none.
pub open spec fn resource_band(sample: u32, constants: MapConstants) -> Option<Resource> {
    if sample > constants.scientific_threshold {
        Some((ResourceType::Energy, 10u32))
    } else if sample > constants.mineral_threshold {
        Some((ResourceType::Mineral, 20u32))
    } else if sample > constants.energy_threshold {
        Some((ResourceType::Energy, 30u32))
    } else {
        None
    }
}

/// A field holds one sample for every cell of a grid of the given size.
pub open spec fn field_fits(field: &Vec<Vec<u32>>, width: usize, height: usize) -> bool {
    &&& field@.len() == height
    &&& forall|y: int| 0 <= y < height ==> (#[trigger] field@[y])@.len() == width
}

/// The resources placed on the first `n` cells, row by row, together with
/// the state in which the generator of amounts is left. Amounts are drawn
/// from one generator, seeded with the map's seed, in the order of the cells.
pub open spec fn placement(field: &Vec<Vec<u32>>, width: int, seed: u64, n: nat) -> (
    Map<usize, Resource>,
    Seq<u8>,
)
    decreases n,
{
    if n == 0 {
        (Map::empty(), seeded_state(seed))
    } else {
        let before = placement(field, width, seed, (n - 1) as nat);
        let k = n - 1;
        match resource_band(field@[k / width]@[k % width], MapConstants::standard()) {
            None => before,
            Some(call) => {
                let drawn = range_draw(
                    before.1,
                    call.1,
                    MapConstants::standard().max_resource_amount,
                );
                (before.0.insert(k as usize, (call.0, drawn.0)), drawn.1)
            },
        }
    }
}

/// The terrain for a terrain sample.
pub fn classify_terrain(sample: u32) -> (t: TerrainType)
    ensures
        t == terrain_band(sample),
{
    if sample < PLAIN_BELOW {
        TerrainType::Plain
    } else if sample < HILL_BELOW {
        TerrainType::Hill
    } else if sample < MOUNTAIN_BELOW {
        TerrainType::Mountain
    } else {
        TerrainType::Canyon
    }
}

/// The resource a resource sample calls for, with its least amount.
pub fn classify_resource(sample: u32, constants: &MapConstants) -> (call: Option<Resource>)
    ensures
        call == resource_band(sample, *constants),
{
    if sample > constants.scientific_threshold {
        Some((ResourceType::Energy, 10))
    } else if sample > constants.mineral_threshold {
        Some((ResourceType::Mineral, 20))
    } else if sample > constants.energy_threshold {
        Some((ResourceType::Energy, 30))
    } else {
        None
    }
}

/// The world the robots move in.
///
/// `terrain` and `discovered` hold `height` rows of `width` cells each.
/// `resources` is keyed by cell index, `y * width + x`; a missing key means
/// that the cell holds no resource.
pub struct WorldMap {
    pub width: usize,
    pub height: usize,
    pub terrain: Vec<Vec<u8>>,
    pub resources: HashMap<usize, Resource>,
    pub discovered: Vec<Vec<bool>>,
    pub seed: u64,
}

/// A cell index determines its column and row, and lies below the cell count.
pub proof fn lemma_cell_index(width: int, height: int, x: int, y: int)
    requires
        0 <= x < width,
        0 <= y < height,
    ensures
        0 <= y * width + x < width * height,
        (y * width + x) / width == y,
        (y * width + x) % width == x,
{
    assert(y * width + x < width * height) by (nonlinear_arith)
        requires
            0 <= x < width,
            0 <= y < height,
    ;
    assert(0 <= y * width) by (nonlinear_arith)
        requires
            0 <= y,
            0 < width,
    ;
    vstd::arithmetic::div_mod::lemma_fundamental_div_mod_converse(y * width + x, width, y, x);
}

/// Every index below the cell count is the index of exactly one cell.
pub proof fn lemma_index_cell(width: int, height: int, k: int)
    requires
        0 < width,
        0 <= k < width * height,
    ensures
        0 <= k % width < width,
        0 <= k / width < height,
        (k / width) * width + k % width == k,
{
    vstd::arithmetic::div_mod::lemma_fundamental_div_mod(k, width);
    vstd::arithmetic::div_mod::lemma_mod_bound(k, width);
    assert(width * (k / width) == (k / width) * width) by (nonlinear_arith);
    let q = k / width;
    assert(0 <= q < height) by (nonlinear_arith)
        requires
            0 < width,
            0 <= k < width * height,
            q * width + k % width == k,
            0 <= k % width < width,
    ;
}

/// Two maps generated from the same size, seed and samples are the same
/// cell for cell: in terrain, in resources and their amounts, and in what is
/// discovered.
pub proof fn lemma_generation_is_deterministic(
    first: &WorldMap,
    second: &WorldMap,
    width: usize,
    height: usize,
    seed: u64,
    terrain_field: &Vec<Vec<u32>>,
    resource_field: &Vec<Vec<u32>>,
)
    requires
        first.generated_from(width, height, seed, terrain_field, resource_field),
        second.generated_from(width, height, seed, terrain_field, resource_field),
    ensures
        first.width == second.width,
        first.height == second.height,
        first.seed == second.seed,
        first.resources@ == second.resources@,
        forall|x: int, y: int|
            first.in_bounds(x, y) ==> first.terrain@[y]@[x] == second.terrain@[y]@[x]
                && first.terrain_at(x, y) == second.terrain_at(x, y) && first.resource_at(x, y)
                == second.resource_at(x, y) && first.discovered_at(x, y) == second.discovered_at(
                x,
                y,
            ),
{
    assert forall|x: int, y: int| first.in_bounds(x, y) implies first.terrain@[y]@[x]
        == second.terrain@[y]@[x] && first.terrain_at(x, y) == second.terrain_at(x, y)
        && first.resource_at(x, y) == second.resource_at(x, y) && first.discovered_at(x, y)
        == second.discovered_at(x, y) by {
        assert(first.terrain@[y]@[x] == terrain_band(terrain_field@[y]@[x]).code_spec());
        assert(second.terrain@[y]@[x] == terrain_band(terrain_field@[y]@[x]).code_spec());
        assert(!first.discovered_at(x, y));
        assert(!second.discovered_at(x, y));
    }
}

impl WorldMap {
    /// The shape invariant of a map.
    pub open spec fn wf(&self) -> bool {
        &&& 0 < self.width
        &&& 0 < self.height
        &&& self.width * self.height <= MAX_CELLS
        &&& self.terrain@.len() == self.height
        &&& forall|y: int| 0 <= y < self.height ==> (#[trigger] self.terrain@[y])@.len() == self.width
        &&& self.discovered@.len() == self.height
        &&& forall|y: int|
            0 <= y < self.height ==> (#[trigger] self.discovered@[y])@.len() == self.width
        &&& forall|k: usize| #[trigger]
            self.resources@.contains_key(k) ==> k < self.width * self.height
    }

    pub open spec fn in_bounds(&self, x: int, y: int) -> bool {
        0 <= x < self.width && 0 <= y < self.height
    }

    /// The index under which the cell `(x, y)` is stored in the resource table.
    pub open spec fn index_of(&self, x: int, y: int) -> int {
        y * self.width + x
    }

    /// The terrain of the cell `(x, y)`.
    pub open spec fn terrain_at(&self, x: int, y: int) -> TerrainType {
        TerrainType::of_code(self.terrain@[y]@[x])
    }

    /// A robot can stand on `(x, y)`: the cell is on the grid and its terrain
    /// can be entered.
    pub open spec fn passable(&self, x: int, y: int) -> bool {
        self.in_bounds(x, y) && self.terrain_at(x, y).traversable()
    }

    /// The resource lying on `(x, y)`, if any.
    pub open spec fn resource_at(&self, x: int, y: int) -> Option<Resource> {
        if self.in_bounds(x, y) && self.resources@.contains_key(self.index_of(x, y) as usize) {
            Some(self.resources@[self.index_of(x, y) as usize])
        } else {
            None
        }
    }

    pub open spec fn discovered_at(&self, x: int, y: int) -> bool {
        self.discovered@[y]@[x]
    }

    /// Two maps that differ at most in their resource tables.
    pub open spec fn same_ground(&self, other: &WorldMap) -> bool {
        &&& self.width == other.width
        &&& self.height == other.height
        &&& self.terrain == other.terrain
        &&& self.discovered == other.discovered
        &&& self.seed == other.seed
    }

    /// Two maps that hold the same in every cell.
    pub open spec fn same_content(&self, other: &WorldMap) -> bool {
        &&& self.same_ground(other)
        &&& self.resources@ == other.resources@
    }

    /// Two maps that differ at most in their discovery records.
    pub open spec fn same_world(&self, other: &WorldMap) -> bool {
        &&& self.width == other.width
        &&& self.height == other.height
        &&& self.terrain == other.terrain
        &&& self.resources@ == other.resources@
        &&& self.seed == other.seed
    }

    /// The map is what generation makes of the given size, seed and samples:
    /// every cell has the terrain code of its terrain sample, the resources
    /// are those placed for the resource samples, and nothing is discovered.
    pub open spec fn generated_from(
        &self,
        width: usize,
        height: usize,
        seed: u64,
        terrain_field: &Vec<Vec<u32>>,
        resource_field: &Vec<Vec<u32>>,
    ) -> bool {
        &&& self.width == width
        &&& self.height == height
        &&& self.seed == seed
        &&& forall|x: int, y: int|
            0 <= x < width && 0 <= y < height ==> #[trigger] self.terrain@[y]@[x] == terrain_band(
                terrain_field@[y]@[x],
            ).code_spec()
        &&& forall|x: int, y: int|
            0 <= x < width && 0 <= y < height ==> !#[trigger] self.discovered_at(x, y)
        &&& self.resources@ == placement(
            resource_field,
            width as int,
            seed,
            (width * height) as nat,
        ).0
    }

    /// Generates the map of the given size for a seed.
    ///
    /// The two fields hold, for every cell, the sample of the terrain noise
    /// and of the resource noise that belong to the seed. The result depends
    /// on nothing but the arguments: the same size, seed and samples give the
    /// same terrain and the same resources, amounts included.
    pub fn new(
        width: usize,
        height: usize,
        seed: u64,
        terrain_field: &Vec<Vec<u32>>,
        resource_field: &Vec<Vec<u32>>,
    ) -> (map: WorldMap)
        requires
            0 < width,
            0 < height,
            width * height <= MAX_CELLS,
            field_fits(terrain_field, width, height),
            field_fits(resource_field, width, height),
        ensures
            map.wf(),
            map.generated_from(width, height, seed, terrain_field, resource_field),
            forall|x: int, y: int|
                0 <= x < width && 0 <= y < height ==> #[trigger] map.terrain_at(x, y) == terrain_band(
                    terrain_field@[y]@[x],
                ),
    {
        let mut terrain: Vec<Vec<u8>> = Vec::new();
        let mut discovered: Vec<Vec<bool>> = Vec::new();
        let mut y: usize = 0;
        while y < height
            invariant
                0 <= y <= height,
                terrain@.len() == y,
                discovered@.len() == y,
                forall|r: int| 0 <= r < y ==> (#[trigger] terrain@[r])@.len() == width,
                forall|r: int| 0 <= r < y ==> (#[trigger] discovered@[r])@.len() == width,
                forall|r: int, c: int| 0 <= r < y && 0 <= c < width ==> terrain@[r]@[c] == 0,
                forall|r: int, c: int| 0 <= r < y && 0 <= c < width ==> !discovered@[r]@[c],
            decreases height - y,
        {
            let mut terrain_row: Vec<u8> = Vec::new();
            let mut discovered_row: Vec<bool> = Vec::new();
            let mut x: usize = 0;
            while x < width
                invariant
                    0 <= x <= width,
                    terrain_row@.len() == x,
                    discovered_row@.len() == x,
                    forall|c: int| 0 <= c < x ==> terrain_row@[c] == 0,
                    forall|c: int| 0 <= c < x ==> !discovered_row@[c],
                decreases width - x,
            {
                terrain_row.push(0);
                discovered_row.push(false);
                x += 1;
            }
            terrain.push(terrain_row);
            discovered.push(discovered_row);
            y += 1;
        }
        let mut map = WorldMap {
            width,
            height,
            terrain,
            resources: HashMap::new(),
            discovered,
            seed,
        };
        map.generate_terrain(terrain_field);
        map.generate_resources(resource_field);
        map
    }

    /// Sets the terrain of every cell from its sample.
    pub fn generate_terrain(&mut self, field: &Vec<Vec<u32>>)
        requires
            old(self).wf(),
            field_fits(field, old(self).width, old(self).height),
        ensures
            final(self).wf(),
            final(self).width == old(self).width,
            final(self).height == old(self).height,
            final(self).resources == old(self).resources,
            final(self).discovered == old(self).discovered,
            final(self).seed == old(self).seed,
            forall|x: int, y: int|
                old(self).in_bounds(x, y) ==> #[trigger] final(self).terrain@[y]@[x] == terrain_band(
                    field@[y]@[x],
                ).code_spec(),
    {
        let mut rows: Vec<Vec<u8>> = Vec::new();
        let mut y: usize = 0;
        while y < self.height
            invariant
                self.wf(),
                *self == *old(self),
                field_fits(field, self.width, self.height),
                0 <= y <= self.height,
                rows@.len() == y,
                forall|r: int| 0 <= r < y ==> (#[trigger] rows@[r])@.len() == self.width,
                forall|r: int, c: int|
                    0 <= r < y && 0 <= c < self.width ==> #[trigger] rows@[r]@[c] == terrain_band(
                        field@[r]@[c],
                    ).code_spec(),
            decreases self.height - y,
        {
            let mut row: Vec<u8> = Vec::new();
            let mut x: usize = 0;
            while x < self.width
                invariant
                    self.wf(),
                    field_fits(field, self.width, self.height),
                    0 <= y < self.height,
                    0 <= x <= self.width,
                    row@.len() == x,
                    forall|c: int|
                        0 <= c < x ==> #[trigger] row@[c] == terrain_band(
                            field@[y as int]@[c],
                        ).code_spec(),
                decreases self.width - x,
            {
                let sample = field[y][x];
                row.push(classify_terrain(sample).code());
                x += 1;
            }
            rows.push(row);
            y += 1;
        }
        self.terrain = rows;
    }

    /// Places the resources that the samples call for, drawing their amounts
    /// from a generator seeded with the map's seed. The table must be empty.
    pub fn generate_resources(&mut self, field: &Vec<Vec<u32>>)
        requires
            old(self).wf(),
            old(self).resources@ == Map::<usize, Resource>::empty(),
            field_fits(field, old(self).width, old(self).height),
        ensures
            final(self).wf(),
            final(self).same_ground(old(self)),
            final(self).resources@ == placement(
                field,
                old(self).width as int,
                old(self).seed,
                (old(self).width * old(self).height) as nat,
            ).0,
    {
        let constants = MapConstants::default();
        let mut rng = seeded_rng(self.seed);
        let n: usize = self.width * self.height;
        let mut k: usize = 0;
        while k < n
            invariant
                self.wf(),
                self.same_ground(old(self)),
                field_fits(field, self.width, self.height),
                constants == MapConstants::standard(),
                n == self.width * self.height,
                0 <= k <= n,
                (self.resources@, rng_state(rng)) == placement(
                    field,
                    self.width as int,
                    self.seed,
                    k as nat,
                ),
            decreases n - k,
        {
            proof {
                lemma_index_cell(self.width as int, self.height as int, k as int);
            }
            let x = k % self.width;
            let y = k / self.width;
            let sample = field[y][x];
            match classify_resource(sample, &constants) {
                Some(call) => {
                    let amount = draw_in_range(&mut rng, call.1, constants.max_resource_amount);
                    self.resources.insert(k, (call.0, amount));
                },
                None => {},
            }
            k += 1;
        }
    }

    pub fn contains(&self, x: usize, y: usize) -> (inside: bool)
        ensures
            inside == self.in_bounds(x as int, y as int),
    {
        x < self.width && y < self.height
    }

    /// The index of a cell of the grid.
    pub fn cell_index(&self, x: usize, y: usize) -> (k: usize)
        requires
            self.wf(),
            self.in_bounds(x as int, y as int),
        ensures
            k == self.index_of(x as int, y as int),
            k < self.width * self.height,
    {
        proof {
            lemma_cell_index(self.width as int, self.height as int, x as int, y as int);
            assert(y * self.width <= y * self.width + x);
        }
        y * self.width + x
    }

    pub fn get_terrain(&self, x: usize, y: usize) -> (t: TerrainType)
        requires
            self.wf(),
            self.in_bounds(x as int, y as int),
        ensures
            t == self.terrain_at(x as int, y as int),
    {
        TerrainType::from(self.terrain[y][x])
    }

    /// Whether a robot can stand on `(x, y)`; `false` off the grid.
    pub fn is_passable(&self, x: usize, y: usize) -> (p: bool)
        requires
            self.wf(),
        ensures
            p == self.passable(x as int, y as int),
    {
        if x < self.width && y < self.height {
            self.get_terrain(x, y).is_traversable()
        } else {
            false
        }
    }

    /// Replaces the terrain of one cell and leaves everything else as it was.
    pub fn set_terrain(&mut self, x: usize, y: usize, terrain: TerrainType)
        requires
            old(self).wf(),
            old(self).in_bounds(x as int, y as int),
        ensures
            final(self).wf(),
            final(self).width == old(self).width,
            final(self).height == old(self).height,
            final(self).resources == old(self).resources,
            final(self).discovered == old(self).discovered,
            final(self).seed == old(self).seed,
            final(self).terrain_at(x as int, y as int) == terrain,
            forall|cx: int, cy: int|
                old(self).in_bounds(cx, cy) && (cx != x || cy != y) ==> final(self).terrain_at(
                    cx,
                    cy,
                ) == old(self).terrain_at(cx, cy),
    {
        let code = terrain.code();
        let mut row = self.terrain[y].clone();
        assert(row@ == self.terrain@[y as int]@) by {
            assert(row@ =~= self.terrain@[y as int]@);
        }
        row.set(x, code);
        self.terrain.set(y, row);
        assert forall|r: int| 0 <= r < self.height implies (#[trigger] self.terrain@[r])@.len()
            == self.width by {
            if r != y {
                assert(self.terrain@[r] == old(self).terrain@[r]);
            }
        }
    }

    /// The resource on `(x, y)`, if any; `None` off the grid.
    pub fn get_resource(&self, position: Position) -> (found: Option<Resource>)
        requires
            self.wf(),
        ensures
            found == self.resource_at(position.0 as int, position.1 as int),
    {
        if position.0 < self.width && position.1 < self.height {
            let k = self.cell_index(position.0, position.1);
            match self.resources.get(&k) {
                Some(r) => Some(*r),
                None => None,
            }
        } else {
            None
        }
    }

    pub fn has_resource(&self, position: Position) -> (present: bool)
        requires
            self.wf(),
        ensures
            present == self.resource_at(position.0 as int, position.1 as int).is_some(),
    {
        self.get_resource(position).is_some()
    }

    /// Puts a resource on a cell of the grid, replacing what lay there.
    /// Returns what lay there before.
    pub fn place_resource(&mut self, position: Position, kind: ResourceType, amount: u32) -> (previous:
        Option<Resource>)
        requires
            old(self).wf(),
            old(self).in_bounds(position.0 as int, position.1 as int),
        ensures
            final(self).wf(),
            final(self).same_ground(old(self)),
            previous == old(self).resource_at(position.0 as int, position.1 as int),
            final(self).resource_at(position.0 as int, position.1 as int) == Some((kind, amount)),
            forall|x: int, y: int|
                old(self).in_bounds(x, y) && (x != position.0 || y != position.1)
                    ==> final(self).resource_at(x, y) == old(self).resource_at(x, y),
            final(self).resources@ == old(self).resources@.insert(
                old(self).index_of(position.0 as int, position.1 as int) as usize,
                (kind, amount),
            ),
    {
        let k = self.cell_index(position.0, position.1);
        let previous = self.resources.insert(k, (kind, amount));
        proof {
            assert forall|x: int, y: int|
                old(self).in_bounds(x, y) && (x != position.0 || y != position.1)
                    implies self.resource_at(x, y) == old(self).resource_at(x, y) by {
                lemma_cell_index(self.width as int, self.height as int, x, y);
                lemma_cell_index(
                    self.width as int,
                    self.height as int,
                    position.0 as int,
                    position.1 as int,
                );
            }
        }
        previous
    }

    /// Takes the resource off a cell, whole. Returns what lay there; the cell
    /// holds nothing afterwards.
    pub fn take_resource(&mut self, position: Position) -> (taken: Option<Resource>)
        requires
            old(self).wf(),
        ensures
            final(self).wf(),
            final(self).same_ground(old(self)),
            taken == old(self).resource_at(position.0 as int, position.1 as int),
            final(self).resource_at(position.0 as int, position.1 as int).is_none(),
            forall|x: int, y: int|
                old(self).in_bounds(x, y) && (x != position.0 || y != position.1)
                    ==> final(self).resource_at(x, y) == old(self).resource_at(x, y),
            taken.is_none() ==> final(self).resources@ == old(self).resources@,
            old(self).in_bounds(position.0 as int, position.1 as int) ==> final(self).resources@
                == old(self).resources@.remove(
                old(self).index_of(position.0 as int, position.1 as int) as usize,
            ),
    {
        if position.0 < self.width && position.1 < self.height {
            let k = self.cell_index(position.0, position.1);
            let taken = self.resources.remove(&k);
            proof {
                assert forall|x: int, y: int|
                    old(self).in_bounds(x, y) && (x != position.0 || y != position.1)
                        implies self.resource_at(x, y) == old(self).resource_at(x, y) by {
                    lemma_cell_index(self.width as int, self.height as int, x, y);
                    lemma_cell_index(
                        self.width as int,
                        self.height as int,
                        position.0 as int,
                        position.1 as int,
                    );
                }
                if taken.is_none() {
                    assert(self.resources@ =~= old(self).resources@);
                }
            }
            taken
        } else {
            None
        }
    }

    /// The number of cells that hold a resource.
    pub fn resource_count(&self) -> (n: usize)
        ensures
            n == self.resources@.len(),
    {
        self.resources.len()
    }

    /// Whether a cell has been discovered; `false` off the grid.
    pub fn is_discovered(&self, x: usize, y: usize) -> (d: bool)
        requires
            self.wf(),
        ensures
            d == (self.in_bounds(x as int, y as int) && self.discovered_at(x as int, y as int)),
    {
        if x < self.width && y < self.height {
            self.discovered[y][x]
        } else {
            false
        }
    }

    /// Marks one cell as discovered. Discovery is never undone: every cell
    /// that was discovered before still is.
    pub fn mark_discovered(&mut self, x: usize, y: usize)
        requires
            old(self).wf(),
            old(self).in_bounds(x as int, y as int),
        ensures
            final(self).wf(),
            final(self).same_world(old(self)),
            final(self).discovered_at(x as int, y as int),
            forall|cx: int, cy: int|
                old(self).in_bounds(cx, cy) && (cx != x || cy != y) ==> #[trigger] final(self).discovered_at(cx, cy) == old(self).discovered_at(cx, cy),
    {
        let mut row = self.discovered[y].clone();
        assert(row@ == self.discovered@[y as int]@) by {
            assert(row@ =~= self.discovered@[y as int]@);
        }
        row.set(x, true);
        self.discovered.set(y, row);
        assert forall|r: int| 0 <= r < self.height implies (#[trigger] self.discovered@[r])@.len()
            == self.width by {
            if r != y {
                assert(self.discovered@[r] == old(self).discovered@[r]);
            }
        }
    }
}

} // verus!
