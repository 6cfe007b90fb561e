use vstd::prelude::*;
use crate::cell::{BorderDir, CellCoord};

verus! {

/// One bucket of the grid: the ids of the entities filed under a cell, in
/// the order in which they were inserted.
pub struct IndexGrid {
    pub entity_ids: Vec<u32>,
}

impl View for IndexGrid {
    type V = Seq<u32>;

    open spec fn view(&self) -> Seq<u32> {
        self.entity_ids@
    }
}

impl IndexGrid {
    /// An empty bucket.
    pub fn new() -> (r: Self)
        ensures
            r@ == Seq::<u32>::empty(),
    {
        IndexGrid { entity_ids: Vec::new() }
    }

    /// Appends an id at the end of the bucket.
    pub fn insert(&mut self, ids: u32)
        ensures
            final(self)@ == old(self)@.push(ids),
    {
        self.entity_ids.push(ids);
    }

    /// The ids of the bucket, in insertion order.
    pub fn get_entities(&self) -> (r: &[u32])
        ensures
            r@ == self@,
    {
        self.entity_ids.as_slice()
    }
}

/// The character of a decimal digit `d < 10`.
pub open spec fn digit_char(d: nat) -> char {
    ((d + '0' as nat) as u8) as char
}

/// The decimal digits of `n`, most significant first, without leading zeros.
pub open spec fn digits(n: nat) -> Seq<char>
    decreases n,
{
    if n < 10 {
        seq![digit_char(n)]
    } else {
        digits(n / 10).push(digit_char(n % 10))
    }
}

/// The decimal form of `v`: a `-` before the digits of a negative value.
pub open spec fn decimal(v: int) -> Seq<char> {
    if v < 0 {
        seq!['-'] + digits((-v) as nat)
    } else {
        digits(v as nat)
    }
}

/// Relies on `ToString::to_string` through `i32`'s `Display`, which writes
/// the decimal form of the value.
#[verifier::external_body]
fn decimal_text(v: i32) -> (r: String)
    ensures
        r@ == decimal(v as int),
{
    v.to_string()
}

/// The text of a cell key: `x,y`.
pub open spec fn cell_text(c: CellCoord) -> Seq<char> {
    decimal(c.x as int) + seq![','] + decimal(c.y as int)
}

/// A cell coordinate written out as text, optionally followed by the label
/// of a diagonal direction.
pub struct PosString {
    pub value: String,
}

impl PosString {
    /// `x,y` for the cell `(x, y)`.
    pub fn from_cell(c: CellCoord) -> (r: Self)
        ensures
            r.value@ == cell_text(c),
    {
        let mut value = decimal_text(c.x);
        value.append(",");
        let y = decimal_text(c.y);
        value.append(y.as_str());
        proof {
            reveal_strlit(",");
        }
        PosString { value }
    }

    /// `x,yD` for the cell `(x, y)` and the direction label `D`.
    pub fn from_border(c: CellCoord, dir: BorderDir) -> (r: Self)
        ensures
            r.value@ == cell_text(c) + dir.label(),
    {
        let mut value = PosString::from_cell(c).value;
        let label = dir.to_string();
        value.append(label.as_str());
        PosString { value }
    }
}

} // verus!
