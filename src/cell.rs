use vstd::prelude::*;

verus! {

/// Offset that moves a signed 32-bit coordinate into `0 .. 2^32`.
pub const COORD_BIAS: i64 = 0x8000_0000;

/// Number of distinct values of one packed coordinate.
pub const COORD_SPAN: u64 = 0x1_0000_0000;

/// A position in world units, as the grid reads it.
#[derive(Clone, Copy, Debug, PartialEq, Eq, Structural)]
pub struct Point {
    pub x: i32,
    pub y: i32,
}

/// The integer coordinate of a grid cell.
#[derive(Clone, Copy, Debug, PartialEq, Eq, Structural)]
pub struct CellCoord {
    pub x: i32,
    pub y: i32,
}

/// The cell along one axis that holds world coordinate `p` when cells are
/// `size` wide: `floor(p / size)` (integer division in specs rounds down
/// for a positive divisor).
pub open spec fn cell_of(p: int, size: int) -> int {
    p / size
}

/// The 64-bit hash key of a cell: the two coordinates, each moved into
/// `0 .. 2^32`, side by side.
pub open spec fn key_of(c: CellCoord) -> u64 {
    ((c.x as int + COORD_BIAS) * COORD_SPAN + (c.y as int + COORD_BIAS)) as u64
}

/// Distinct cells have distinct keys.
pub proof fn lemma_key_injective(a: CellCoord, b: CellCoord)
    ensures
        key_of(a) == key_of(b) <==> a == b,
{
    let ax = a.x as int + COORD_BIAS;
    let bx = b.x as int + COORD_BIAS;
    let ay = a.y as int + COORD_BIAS;
    let by = b.y as int + COORD_BIAS;
    assert(0 <= ax * COORD_SPAN + ay < 0x1_0000_0000_0000_0000) by (nonlinear_arith)
        requires
            0 <= ax < COORD_SPAN,
            0 <= ay < COORD_SPAN,
    ;
    assert(0 <= bx * COORD_SPAN + by < 0x1_0000_0000_0000_0000) by (nonlinear_arith)
        requires
            0 <= bx < COORD_SPAN,
            0 <= by < COORD_SPAN,
    ;
    if ax * COORD_SPAN + ay == bx * COORD_SPAN + by {
        assert(ax == bx && ay == by) by (nonlinear_arith)
            requires
                ax * COORD_SPAN + ay == bx * COORD_SPAN + by,
                0 <= ay < COORD_SPAN,
                0 <= by < COORD_SPAN,
        ;
    }
}

/// Packs a cell into its hash key.
pub fn cell_key(c: CellCoord) -> (k: u64)
    ensures
        k == key_of(c),
{
    let hi: u64 = (c.x as i64 + COORD_BIAS) as u64;
    let lo: u64 = (c.y as i64 + COORD_BIAS) as u64;
    assert(hi * COORD_SPAN + lo < 0x1_0000_0000_0000_0000) by (nonlinear_arith)
        requires
            hi < COORD_SPAN,
            lo < COORD_SPAN,
    ;
    hi * COORD_SPAN + lo
}

/// `floor(p / size)` for a positive cell size.
pub fn cell_index_1d(p: i32, size: u32) -> (c: i32)
    requires
        size > 0,
    ensures
        c as int == cell_of(p as int, size as int),
{
    proof {
        let pi = p as int;
        let si = size as int;
        if pi >= 0 {
            assert(0 <= pi / si <= pi) by (nonlinear_arith)
                requires
                    si >= 1,
                    pi >= 0,
            ;
        } else {
            assert(pi <= pi / si < 0) by (nonlinear_arith)
                requires
                    si >= 1,
                    pi < 0,
            ;
        }
    }
    match (p as i64).checked_div_euclid(size as i64) {
        Some(q) => q as i32,
        None => 0,
    }
}

/// The four diagonal directions from a cell's center.
#[derive(Clone, Copy, Debug, PartialEq, Eq, Structural)]
pub enum BorderDir {
    LT,
    RT,
    LB,
    RB,
}

impl BorderDir {
    /// The direction's two-letter label.
    pub open spec fn label(self) -> Seq<char> {
        match self {
            BorderDir::LT => seq!['L', 'T'],
            BorderDir::RT => seq!['R', 'T'],
            BorderDir::LB => seq!['L', 'B'],
            BorderDir::RB => seq!['R', 'B'],
        }
    }

    /// The step from a cell to its diagonal neighbor in this direction.
    pub open spec fn step(self) -> (int, int) {
        match self {
            BorderDir::LT => (-1, 1),
            BorderDir::RT => (1, 1),
            BorderDir::LB => (-1, -1),
            BorderDir::RB => (1, -1),
        }
    }

    /// The two-letter label, as text.
    pub fn to_string(&self) -> (r: String)
        ensures
            r@ == self.label(),
    {
        let s = match self {
            BorderDir::LT => "LT",
            BorderDir::RT => "RT",
            BorderDir::LB => "LB",
            BorderDir::RB => "RB",
        };
        proof {
            reveal_strlit("LT");
            reveal_strlit("RT");
            reveal_strlit("LB");
            reveal_strlit("RB");
        }
        let r = s.to_string();
        r
    }
}

} // verus!
