use std::collections::HashMap;
use std::marker::PhantomData;
use vstd::prelude::*;
use crate::cell::{
    cell_index_1d, cell_key, cell_of, key_of, lemma_key_injective, BorderDir, CellCoord, Point,
};
use crate::unit::IndexGrid;

verus! {

broadcast use vstd::std_specs::hash::group_hash_axioms;

/// Marks the fine grid, whose cells are sized for short-range interactions.
#[derive(Default)]
pub struct CollisionMarker;

/// Marks the coarse grid, whose cells are sized for flocking interactions.
#[derive(Default)]
pub struct ClusteringMarker;

pub type Collision = SpaceMap<CollisionMarker>;

pub type Clustering = SpaceMap<ClusteringMarker>;

/// Cell side of the fine grid, in world units.
pub const COLLISION_CELL_SIZE: u32 = 200;

/// Cell side of the coarse grid, in world units.
pub const CLUSTERING_CELL_SIZE: u32 = 500;

/// Largest border width that a grid accepts: room for a separation and two
/// radii, each of 32 bits.
pub const MAX_BORDER_WIDTH: u64 = 0x4_0000_0000;

/// Most entities a grid can file: ids are 32-bit.
pub const MAX_ENTITIES: u64 = 0x1_0000_0000;

/// Why a grid could not be made.
#[derive(Clone, Copy, Debug, PartialEq, Eq, Structural)]
pub enum GridError {
    /// A cell side of zero was asked for.
    ZeroCellSize,
}

/// The geometry of a grid: its cell sides and, when the border layer is on,
/// its border width. An entity farther than `side / 2 - border width` from
/// its cell's center on both axes is then filed under the diagonal neighbor
/// it leans toward as well.
#[derive(Clone, Copy, Debug, PartialEq, Eq, Structural)]
pub struct GridShape {
    pub cell_w: u32,
    pub cell_h: u32,
    pub border_width: Option<u64>,
}

/// `|v|`.
pub open spec fn abs(v: int) -> int {
    if v < 0 {
        -v
    } else {
        v
    }
}

/// Twice the offset of world coordinate `p` from the center of cell `cell`
/// along an axis whose cells are `size` wide (doubled so that it stays an
/// integer for an odd `size`).
pub open spec fn doubled_offset(p: int, cell: int, size: int) -> int {
    2 * p - (2 * (cell * size) + size)
}

/// The diagonal direction that the offset `(dx, dy)` from a cell's center
/// points into.
pub open spec fn direction_of(dx: int, dy: int) -> BorderDir {
    if dx > 0 && dy > 0 {
        BorderDir::RT
    } else if dx < 0 && dy < 0 {
        BorderDir::LB
    } else if dx < 0 && dy > 0 {
        BorderDir::LT
    } else {
        BorderDir::RB
    }
}

pub open spec fn fits_i32(v: int) -> bool {
    i32::MIN <= v <= i32::MAX
}

impl GridShape {
    pub open spec fn wf(self) -> bool {
        &&& self.cell_w > 0
        &&& self.cell_h > 0
        &&& self.border_width matches Some(w) ==> w <= MAX_BORDER_WIDTH
    }

    /// The cell that holds `p`: `floor(p / cell side)` on each axis.
    pub open spec fn cell_for(self, p: Point) -> CellCoord {
        CellCoord {
            x: cell_of(p.x as int, self.cell_w as int) as i32,
            y: cell_of(p.y as int, self.cell_h as int) as i32,
        }
    }

    /// Whether `p` lies in a corner region of its cell: farther than
    /// `side / 2 - border width` from the center on both axes.
    pub open spec fn near_corner(self, p: Point, w: int) -> bool {
        let c = self.cell_for(p);
        &&& abs(doubled_offset(p.x as int, c.x as int, self.cell_w as int)) > self.cell_w - 2 * w
        &&& abs(doubled_offset(p.y as int, c.y as int, self.cell_h as int)) > self.cell_h - 2 * w
    }

    /// The diagonal neighbor of `p`'s cell toward which `p` leans.
    pub open spec fn leaning_dir(self, p: Point) -> BorderDir {
        let c = self.cell_for(p);
        direction_of(
            doubled_offset(p.x as int, c.x as int, self.cell_w as int),
            doubled_offset(p.y as int, c.y as int, self.cell_h as int),
        )
    }

    /// The extra cell that `p` is filed under, if any: with the border layer
    /// on and `p` in a corner region, the diagonal neighbor it leans toward,
    /// when that neighbor's coordinates are representable.
    pub open spec fn border_cell(self, p: Point) -> Option<CellCoord> {
        match self.border_width {
            None => None,
            Some(w) => {
                let c = self.cell_for(p);
                let step = self.leaning_dir(p).step();
                let nx = c.x + step.0;
                let ny = c.y + step.1;
                if self.near_corner(p, w as int) && fits_i32(nx) && fits_i32(ny) {
                    Some(CellCoord { x: nx as i32, y: ny as i32 })
                } else {
                    None
                }
            },
        }
    }

    /// Whether an entity at `p` is filed under cell `c`.
    pub open spec fn placed_in(self, p: Point, c: CellCoord) -> bool {
        self.cell_for(p) == c || self.border_cell(p) == Some(c)
    }

    /// The bucket of `c` after the entities at `ps[0 .. n]` were inserted
    /// in order into an empty grid: the ids of those filed under `c`,
    /// ascending.
    pub open spec fn ids_placed(self, ps: Seq<Point>, c: CellCoord, n: nat) -> Seq<u32>
        decreases n,
    {
        if n == 0 {
            Seq::empty()
        } else {
            let prev = self.ids_placed(ps, c, (n - 1) as nat);
            if self.placed_in(ps[n - 1], c) {
                prev.push((n - 1) as u32)
            } else {
                prev
            }
        }
    }
}

/// A uniform grid hash from cell coordinates to buckets of entity ids.
pub struct SpaceMap<T> {
    shape: GridShape,
    map: HashMap<u64, IndexGrid>,
    _marker: PhantomData<T>,
}

impl<T> SpaceMap<T> {
    /// The grid's geometry.
    pub closed spec fn shape(self) -> GridShape {
        self.shape
    }

    /// The buckets, by cell.
    pub closed spec fn buckets(self) -> Map<CellCoord, Seq<u32>> {
        Map::new(
            |c: CellCoord| self.map@.contains_key(key_of(c)),
            |c: CellCoord| self.map@[key_of(c)]@,
        )
    }

    /// The ids filed under `c`, in insertion order (empty for a cell never
    /// used).
    pub open spec fn bucket_of(self, c: CellCoord) -> Seq<u32> {
        if self.buckets().contains_key(c) {
            self.buckets()[c]
        } else {
            Seq::empty()
        }
    }

    /// Valid geometry, and no bucket is kept empty.
    pub open spec fn wf(self) -> bool {
        &&& self.shape().wf()
        &&& forall|c: CellCoord| #[trigger]
            self.buckets().contains_key(c) ==> self.buckets()[c].len() > 0
    }

    /// A grid with cells `cell_w` by `cell_h`, all buckets empty and the
    /// border layer off; a zero side is refused.
    pub fn new(cell_w: u32, cell_h: u32) -> (r: Result<Self, GridError>)
        ensures
            cell_w == 0 || cell_h == 0 <==> r is Err,
            r is Err ==> r == Err::<Self, GridError>(GridError::ZeroCellSize),
            r matches Ok(m) ==> {
                &&& m.wf()
                &&& m.shape() == (GridShape { cell_w, cell_h, border_width: None })
                &&& forall|c: CellCoord| #[trigger] m.bucket_of(c) == Seq::<u32>::empty()
            },
    {
        if cell_w == 0 || cell_h == 0 {
            return Err(GridError::ZeroCellSize);
        }
        let m = SpaceMap {
            shape: GridShape { cell_w, cell_h, border_width: None },
            map: HashMap::new(),
            _marker: PhantomData,
        };
        Ok(m)
    }

    /// The grid's cell sides.
    pub fn cell_size(&self) -> (r: (u32, u32))
        ensures
            r == (self.shape().cell_w, self.shape().cell_h),
    {
        (self.shape.cell_w, self.shape.cell_h)
    }

    /// Turns the border layer on for objects of radius `object_radius` kept
    /// `object_center_separate_dis` apart: the band along cell edges is
    /// `2 * object_radius + object_center_separate_dis` wide. Buckets already
    /// filled stay as they are.
    pub fn with_border_layer(&mut self, object_radius: u32, object_center_separate_dis: u32)
        requires
            old(self).wf(),
        ensures
            final(self).wf(),
            final(self).shape() == (GridShape {
                border_width: Some(
                    (object_center_separate_dis + 2 * object_radius) as u64,
                ),
                ..old(self).shape()
            }),
            final(self).buckets() == old(self).buckets(),
    {
        let border_line_width: u64 = object_center_separate_dis as u64 + 2 * (object_radius as u64);
        self.shape.border_width = Some(border_line_width);
        assert(self.buckets() =~= old(self).buckets());
    }

    /// Rebuilds the grid from scratch: empties it, then files each entity
    /// `i` at `positions[i]`, in order.
    pub fn rebuild(&mut self, positions: &Vec<Point>)
        requires
            old(self).wf(),
            positions.len() <= MAX_ENTITIES,
        ensures
            final(self).wf(),
            final(self).shape() == old(self).shape(),
            forall|c: CellCoord| #[trigger]
                final(self).bucket_of(c) == old(self).shape().ids_placed(
                    positions@,
                    c,
                    positions.len() as nat,
                ),
    {
        self.clear();
        let n = positions.len();
        let mut i: usize = 0;
        while i < n
            invariant
                self.wf(),
                self.shape() == old(self).shape(),
                n == positions.len(),
                n <= MAX_ENTITIES,
                i <= n,
                forall|c: CellCoord| #[trigger]
                    self.bucket_of(c) == self.shape().ids_placed(positions@, c, i as nat),
            decreases n - i,
        {
            self.insert(i as u32, positions[i]);
            i += 1;
        }
    }

    /// Empties every bucket.
    pub fn clear(&mut self)
        requires
            old(self).wf(),
        ensures
            final(self).wf(),
            final(self).shape() == old(self).shape(),
            forall|c: CellCoord| #[trigger] final(self).bucket_of(c) == Seq::<u32>::empty(),
    {
        self.map.clear();
    }

    /// Appends `id` to the bucket of cell `c`, creating the bucket on first
    /// use.
    fn push_to_cell(&mut self, c: CellCoord, id: u32)
        requires
            old(self).wf(),
        ensures
            final(self).wf(),
            final(self).shape() == old(self).shape(),
            forall|d: CellCoord| #[trigger]
                final(self).bucket_of(d) == if d == c {
                    old(self).bucket_of(d).push(id)
                } else {
                    old(self).bucket_of(d)
                },
    {
        let key = cell_key(c);
        let grid = match self.map.remove(&key) {
            Some(g) => {
                let mut g = g;
                g.insert(id);
                g
            },
            None => {
                let mut g = IndexGrid::new();
                g.insert(id);
                g
            },
        };
        self.map.insert(key, grid);
        proof {
            assert forall|d: CellCoord| #[trigger]
                final(self).bucket_of(d) == if d == c {
                    old(self).bucket_of(d).push(id)
                } else {
                    old(self).bucket_of(d)
                } by {
                lemma_key_injective(c, d);
            }
            assert forall|d: CellCoord| #[trigger]
                self.buckets().contains_key(d) implies self.buckets()[d].len() > 0 by {
                lemma_key_injective(c, d);
                if d != c {
                    assert(old(self).buckets().contains_key(d));
                }
            }
        }
    }

    /// Files `entity_id` under the cell that holds `position` and, with the
    /// border layer on, under the diagonal neighbor that a corner position
    /// leans toward.
    pub fn insert(&mut self, entity_id: u32, position: Point)
        requires
            old(self).wf(),
        ensures
            final(self).wf(),
            final(self).shape() == old(self).shape(),
            forall|c: CellCoord| #[trigger]
                final(self).bucket_of(c) == if old(self).shape().placed_in(position, c) {
                    old(self).bucket_of(c).push(entity_id)
                } else {
                    old(self).bucket_of(c)
                },
    {
        let cell_pos = self.get_cell_index(position);
        let extra = self.border_neighbor(position, cell_pos);
        match extra {
            Some(b) => {
                self.push_to_cell(b, entity_id);
            },
            None => {},
        }
        self.push_to_cell(cell_pos, entity_id);
    }

    /// The bucket of the cell that holds `entity_pos`, if it holds any id.
    pub fn query(&self, entity_pos: Point) -> (r: Option<&IndexGrid>)
        requires
            self.wf(),
        ensures
            match r {
                None => self.bucket_of(self.shape().cell_for(entity_pos)).len() == 0,
                Some(g) => g@ == self.bucket_of(self.shape().cell_for(entity_pos)) && g@.len()
                    > 0,
            },
    {
        let index_pos = self.get_cell_index(entity_pos);
        self.get_index_grid_by_pos(&index_pos)
    }

    /// The bucket of cell `grid_pos`, if it holds any id.
    pub fn get_index_grid_by_pos(&self, grid_pos: &CellCoord) -> (r: Option<&IndexGrid>)
        requires
            self.wf(),
        ensures
            match r {
                None => self.bucket_of(*grid_pos).len() == 0,
                Some(g) => g@ == self.bucket_of(*grid_pos) && g@.len() > 0,
            },
    {
        let key = cell_key(*grid_pos);
        let r = self.map.get(&key);
        r
    }

    /// The cell that holds `position`.
    pub fn get_cell_index(&self, position: Point) -> (r: CellCoord)
        requires
            self.shape().wf(),
        ensures
            r == self.shape().cell_for(position),
    {
        CellCoord {
            x: cell_index_1d(position.x, self.shape.cell_w),
            y: cell_index_1d(position.y, self.shape.cell_h),
        }
    }

    /// Twice the center of cell `cell_pos` (doubled so that it stays an
    /// integer for an odd cell side).
    pub fn get_cell_center(&self, cell_pos: &CellCoord) -> (r: (i128, i128))
        requires
            self.shape().wf(),
        ensures
            r.0 == 2 * (cell_pos.x * self.shape().cell_w) + self.shape().cell_w,
            r.1 == 2 * (cell_pos.y * self.shape().cell_h) + self.shape().cell_h,
    {
        let cw = self.shape.cell_w as i128;
        let ch = self.shape.cell_h as i128;
        assert(-0x1_0000_0000_0000_0000 <= cell_pos.x * cw <= 0x1_0000_0000_0000_0000)
            by (nonlinear_arith)
            requires
                i32::MIN <= cell_pos.x <= i32::MAX,
                0 < cw <= u32::MAX,
        ;
        assert(-0x1_0000_0000_0000_0000 <= cell_pos.y * ch <= 0x1_0000_0000_0000_0000)
            by (nonlinear_arith)
            requires
                i32::MIN <= cell_pos.y <= i32::MAX,
                0 < ch <= u32::MAX,
        ;
        (2 * ((cell_pos.x as i128) * cw) + cw, 2 * ((cell_pos.y as i128) * ch) + ch)
    }

    /// The extra cell that `position`, in cell `cell_pos`, is filed under.
    fn border_neighbor(&self, position: Point, cell_pos: CellCoord) -> (r: Option<CellCoord>)
        requires
            self.shape().wf(),
            cell_pos == self.shape().cell_for(position),
        ensures
            r == self.shape().border_cell(position),
    {
        match self.shape.border_width {
            None => None,
            Some(w) => {
                let cw = self.shape.cell_w as i64;
                let ch = self.shape.cell_h as i64;
                proof {
                    lemma_cell_bounds(position.x as int, cw as int);
                    lemma_cell_bounds(position.y as int, ch as int);
                }
                let center = self.get_cell_center(&cell_pos);
                let dx: i64 = (2 * (position.x as i128) - center.0) as i64;
                let dy: i64 = (2 * (position.y as i128) - center.1) as i64;
                let adx: i64 = if dx < 0 {
                    -dx
                } else {
                    dx
                };
                let ady: i64 = if dy < 0 {
                    -dy
                } else {
                    dy
                };
                let w2: i64 = 2 * (w as i64);
                if adx > cw - w2 && ady > ch - w2 {
                    let dir = border_dir(dx, dy);
                    let (sx, sy): (i64, i64) = match dir {
                        BorderDir::LT => (-1, 1),
                        BorderDir::RT => (1, 1),
                        BorderDir::LB => (-1, -1),
                        BorderDir::RB => (1, -1),
                    };
                    let nx: i64 = cell_pos.x as i64 + sx;
                    let ny: i64 = cell_pos.y as i64 + sy;
                    if i32::MIN as i64 <= nx && nx <= i32::MAX as i64 && i32::MIN as i64 <= ny
                        && ny <= i32::MAX as i64 {
                        Some(CellCoord { x: nx as i32, y: ny as i32 })
                    } else {
                        None
                    }
                } else {
                    None
                }
            },
        }
    }
}

/// A world coordinate lies in its cell: `c * size <= p < c * size + size`
/// for `c = floor(p / size)`.
pub proof fn lemma_cell_bounds(p: int, size: int)
    requires
        size > 0,
    ensures
        cell_of(p, size) * size <= p < cell_of(p, size) * size + size,
        p >= 0 ==> 0 <= cell_of(p, size) <= p,
        p < 0 ==> p <= cell_of(p, size) < 0,
{
    let c = p / size;
    assert(c * size <= p < c * size + size) by (nonlinear_arith)
        requires
            size > 0,
            c == p / size,
    ;
    if p >= 0 {
        assert(0 <= c <= p) by (nonlinear_arith)
            requires
                size > 0,
                c == p / size,
                p >= 0,
        ;
    } else {
        assert(p <= c < 0) by (nonlinear_arith)
            requires
                size > 0,
                c == p / size,
                p < 0,
        ;
    }
}

/// The diagonal direction of the offset `(dx, dy)` from a cell's center.
pub fn border_dir(dx: i64, dy: i64) -> (r: BorderDir)
    ensures
        r == direction_of(dx as int, dy as int),
{
    if dx > 0 && dy > 0 {
        BorderDir::RT
    } else if dx < 0 && dy < 0 {
        BorderDir::LB
    } else if dx < 0 && dy > 0 {
        BorderDir::LT
    } else {
        BorderDir::RB
    }
}

/// The two grids of a simulation tick, both filled from the same positions:
/// a fine one for short-range interactions and a coarse one for flocking.
pub struct Space {
    pub maps: Box<(Collision, Clustering)>,
}

impl Space {
    pub open spec fn wf(self) -> bool {
        self.maps.0.wf() && self.maps.1.wf()
    }

    /// Both grids empty, with the border layer off: the fine one with
    /// cells of side `COLLISION_CELL_SIZE`, the coarse one with cells of
    /// side `CLUSTERING_CELL_SIZE`.
    pub fn new() -> (r: Space)
        ensures
            r.wf(),
            r.maps.0.shape() == (GridShape {
                cell_w: COLLISION_CELL_SIZE,
                cell_h: COLLISION_CELL_SIZE,
                border_width: None,
            }),
            r.maps.1.shape() == (GridShape {
                cell_w: CLUSTERING_CELL_SIZE,
                cell_h: CLUSTERING_CELL_SIZE,
                border_width: None,
            }),
            forall|c: CellCoord| #[trigger] r.maps.0.bucket_of(c) == Seq::<u32>::empty(),
            forall|c: CellCoord| #[trigger] r.maps.1.bucket_of(c) == Seq::<u32>::empty(),
    {
        let collision = match Collision::new(COLLISION_CELL_SIZE, COLLISION_CELL_SIZE) {
            Ok(m) => m,
            Err(_) => vstd::pervasive::unreached(),
        };
        let clustering = match Clustering::new(CLUSTERING_CELL_SIZE, CLUSTERING_CELL_SIZE) {
            Ok(m) => m,
            Err(_) => vstd::pervasive::unreached(),
        };
        Space { maps: Box::new((collision, clustering)) }
    }

    /// Rebuilds both grids from the current positions; entity `i` is at
    /// `positions[i]`.
    pub fn rebuild(&mut self, positions: &Vec<Point>)
        requires
            old(self).wf(),
            positions.len() <= MAX_ENTITIES,
        ensures
            final(self).wf(),
            final(self).maps.0.shape() == old(self).maps.0.shape(),
            final(self).maps.1.shape() == old(self).maps.1.shape(),
            forall|c: CellCoord| #[trigger]
                final(self).maps.0.bucket_of(c) == old(self).maps.0.shape().ids_placed(
                    positions@,
                    c,
                    positions.len() as nat,
                ),
            forall|c: CellCoord| #[trigger]
                final(self).maps.1.bucket_of(c) == old(self).maps.1.shape().ids_placed(
                    positions@,
                    c,
                    positions.len() as nat,
                ),
    {
        self.maps.0.rebuild(positions);
        self.maps.1.rebuild(positions);
    }

    /// The flocking neighbor candidates of entity `i` as the coarse grid
    /// offers them: the other ids of the bucket of `i`'s own cell, in bucket
    /// order. Adjacent cells are not looked at.
    pub fn clustering_neighbors(&self, positions: &Vec<Point>, i: usize) -> (r: Vec<u32>)
        requires
            self.wf(),
            positions.len() <= MAX_ENTITIES,
            i < positions.len(),
            forall|c: CellCoord| #[trigger]
                self.maps.1.bucket_of(c) == self.maps.1.shape().ids_placed(
                    positions@,
                    c,
                    positions.len() as nat,
                ),
        ensures
            r@ == others(
                self.maps.1.bucket_of(self.maps.1.shape().cell_for(positions[i as int])),
                i as u32,
            ),
    {
        proof {
            lemma_each_entity_filed_once(
                self.maps.1.shape(),
                positions@,
                i as int,
                self.maps.1.shape().cell_for(positions[i as int]),
            );
        }
        let ids = match self.maps.1.query(positions[i]) {
            Some(g) => g.get_entities(),
            None => vstd::pervasive::unreached(),
        };
        let me = i as u32;
        let mut r: Vec<u32> = Vec::new();
        let mut k: usize = 0;
        while k < ids.len()
            invariant
                k <= ids@.len(),
                r@ == others(ids@.subrange(0, k as int), me),
            decreases ids@.len() - k,
        {
            assert(ids@.subrange(0, k + 1).drop_last() =~= ids@.subrange(0, k as int));
            if ids[k] != me {
                r.push(ids[k]);
            }
            k += 1;
        }
        assert(ids@.subrange(0, ids@.len() as int) =~= ids@);
        r
    }
}

/// The ids of `s` other than `me`, in their order.
pub open spec fn others(s: Seq<u32>, me: u32) -> Seq<u32>
    decreases s.len(),
{
    if s.len() == 0 {
        Seq::empty()
    } else {
        let rest = others(s.drop_last(), me);
        if s.last() == me {
            rest
        } else {
            rest.push(s.last())
        }
    }
}

/// The bucket of `c` after inserting the entities at `ps[0 .. n]` holds id
/// `i` exactly when `i < n` and the entity at `ps[i]` is filed under `c`;
/// its ids ascend strictly, so none is there twice.
pub proof fn lemma_ids_placed(shape: GridShape, ps: Seq<Point>, c: CellCoord, n: nat)
    requires
        n <= ps.len(),
        n <= MAX_ENTITIES,
    ensures
        forall|i: int|
            0 <= i < MAX_ENTITIES ==> (#[trigger] shape.ids_placed(ps, c, n).contains(i as u32) <==> (
            i < n && shape.placed_in(ps[i], c))),
        forall|j: int, k: int|
            0 <= j < k < shape.ids_placed(ps, c, n).len() ==> #[trigger] shape.ids_placed(
                ps,
                c,
                n,
            )[j] < #[trigger] shape.ids_placed(ps, c, n)[k],
        forall|j: int|
            0 <= j < shape.ids_placed(ps, c, n).len() ==> #[trigger] shape.ids_placed(ps, c, n)[j]
                < n,
    decreases n,
{
    if n > 0 {
        lemma_ids_placed(shape, ps, c, (n - 1) as nat);
        let prev = shape.ids_placed(ps, c, (n - 1) as nat);
        let cur = shape.ids_placed(ps, c, n);
        assert forall|i: int| 0 <= i < MAX_ENTITIES implies (#[trigger] cur.contains(i as u32) <==> (
        i < n && shape.placed_in(ps[i], c))) by {
            if cur.contains(i as u32) && !prev.contains(i as u32) {
                let j = choose|j: int| 0 <= j < cur.len() && cur[j] == i as u32;
                assert(j == prev.len());
            }
            if i < n - 1 && shape.placed_in(ps[i], c) {
                let j = choose|j: int| 0 <= j < prev.len() && prev[j] == i as u32;
                assert(cur[j] == i as u32);
            }
            if i == n - 1 && shape.placed_in(ps[i], c) {
                assert(cur[prev.len() as int] == i as u32);
            }
        }
    }
}

/// After a rebuild from `ps`, entity `i` sits in the bucket of its own cell
/// and in no other bucket but, with the border layer on, the one border cell
/// it leans toward; with the border layer off, in its own cell's bucket
/// alone. No bucket holds it twice.
pub proof fn lemma_each_entity_filed_once(shape: GridShape, ps: Seq<Point>, i: int, c: CellCoord)
    requires
        shape.wf(),
        ps.len() <= MAX_ENTITIES,
        0 <= i < ps.len(),
    ensures
        shape.ids_placed(ps, shape.cell_for(ps[i]), ps.len()).contains(i as u32),
        shape.ids_placed(ps, c, ps.len()).contains(i as u32) <==> (c == shape.cell_for(ps[i])
            || shape.border_cell(ps[i]) == Some(c)),
        shape.border_width is None ==> (shape.ids_placed(ps, c, ps.len()).contains(i as u32) <==> c
            == shape.cell_for(ps[i])),
        shape.ids_placed(ps, c, ps.len()).no_duplicates(),
{
    lemma_ids_placed(shape, ps, c, ps.len());
    lemma_ids_placed(shape, ps, shape.cell_for(ps[i]), ps.len());
    assert(shape.ids_placed(ps, c, ps.len()).contains(i as u32) <==> shape.placed_in(ps[i], c));
    let s = shape.ids_placed(ps, c, ps.len());
    assert forall|j: int, k: int| 0 <= j < s.len() && 0 <= k < s.len() && j != k implies s[j]
        != s[k] by {
        if j < k {
            assert(s[j] < s[k]);
        } else {
            assert(s[k] < s[j]);
        }
    }
}

/// With the border layer off, a grid rebuilt from a single entity at `p`
/// holds exactly that entity's id in the bucket of `p`, and the bucket of a
/// position `q` in another cell does not hold it.
pub proof fn lemma_grid_exact(shape: GridShape, p: Point, q: Point)
    requires
        shape.wf(),
        shape.border_width is None,
    ensures
        shape.ids_placed(seq![p], shape.cell_for(p), 1) == seq![0u32],
        shape.cell_for(q) != shape.cell_for(p) ==> !shape.ids_placed(
            seq![p],
            shape.cell_for(q),
            1,
        ).contains(0u32),
{
    let ps = seq![p];
    assert(shape.ids_placed(ps, shape.cell_for(p), 0) == Seq::<u32>::empty());
    assert(shape.ids_placed(ps, shape.cell_for(p), 1) =~= seq![0u32]);
    assert(shape.ids_placed(ps, shape.cell_for(q), 0) == Seq::<u32>::empty());
}

/// Two grids of the same shape rebuilt from the same positions hold the same
/// buckets, whatever each held before.
pub proof fn lemma_rebuild_deterministic<T>(a: SpaceMap<T>, b: SpaceMap<T>, ps: Seq<Point>)
    requires
        a.shape() == b.shape(),
        forall|c: CellCoord| #[trigger] a.bucket_of(c) == a.shape().ids_placed(ps, c, ps.len()),
        forall|c: CellCoord| #[trigger] b.bucket_of(c) == b.shape().ids_placed(ps, c, ps.len()),
    ensures
        forall|c: CellCoord| #[trigger] a.bucket_of(c) == b.bucket_of(c),
{
}

} // verus!
