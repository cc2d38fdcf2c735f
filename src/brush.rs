//! Brushes: the set of cells that one click fills or clears.

use vstd::prelude::*;

use crate::cell::{checked_offset, offset_pos, CellKind, GridPos};
use crate::sandbox::Sandbox;

verus! {

#[derive(Debug, Clone, Copy, PartialEq, Eq, Structural)]
pub enum BrushSize {
    Small,
    Medium,
    Large,
    Huge,
}

/// The offsets that a brush of size `s` covers.
pub open spec fn offsets_spec(s: BrushSize) -> Seq<GridPos> {
    match s {
        BrushSize::Small => seq![(0isize, 0isize)],
        BrushSize::Medium => seq![(0isize, 0isize), (1isize, 0isize), (0isize, 1isize), (1isize, 1isize)],
        BrushSize::Large => seq![
            (0isize, 0isize),
            (1isize, 0isize),
            (0isize, 1isize),
            (1isize, 1isize),
            (2isize, 0isize),
            (0isize, 2isize),
            (2isize, 1isize),
            (1isize, 2isize),
            (2isize, 2isize),
        ],
        BrushSize::Huge => Seq::new(169, |i: int| ((i / 13 - 6) as isize, (i % 13 - 6) as isize)),
    }
}

impl BrushSize {
    /// The next larger size, wrapping from the largest to the smallest.
    pub fn next(&self) -> (r: BrushSize)
        ensures
            r == match *self {
                BrushSize::Small => BrushSize::Medium,
                BrushSize::Medium => BrushSize::Large,
                BrushSize::Large => BrushSize::Huge,
                BrushSize::Huge => BrushSize::Small,
            },
    {
        match self {
            BrushSize::Small => BrushSize::Medium,
            BrushSize::Medium => BrushSize::Large,
            BrushSize::Large => BrushSize::Huge,
            BrushSize::Huge => BrushSize::Small,
        }
    }

    /// The next smaller size, wrapping from the smallest to the largest.
    pub fn previous(&self) -> (r: BrushSize)
        ensures
            r == match *self {
                BrushSize::Small => BrushSize::Huge,
                BrushSize::Medium => BrushSize::Small,
                BrushSize::Large => BrushSize::Medium,
                BrushSize::Huge => BrushSize::Large,
            },
    {
        match self {
            BrushSize::Small => BrushSize::Huge,
            BrushSize::Medium => BrushSize::Small,
            BrushSize::Large => BrushSize::Medium,
            BrushSize::Huge => BrushSize::Large,
        }
    }

    /// The covered offsets: a single cell, a 2x2 or 3x3 square, or a 13x13
    /// square centred on the cursor, listed column by column.
    pub fn offsets(&self) -> (r: Vec<GridPos>)
        ensures
            r@ == offsets_spec(*self),
    {
        match self {
            BrushSize::Small => {
                let r = vec![(0isize, 0isize)];
                assert(r@ =~= offsets_spec(*self));
                r
            },
            BrushSize::Medium => {
                let r = vec![(0isize, 0isize), (1isize, 0isize), (0isize, 1isize), (1isize, 1isize)];
                assert(r@ =~= offsets_spec(*self));
                r
            },
            BrushSize::Large => {
                let r = vec![
                    (0isize, 0isize),
                    (1isize, 0isize),
                    (0isize, 1isize),
                    (1isize, 1isize),
                    (2isize, 0isize),
                    (0isize, 2isize),
                    (2isize, 1isize),
                    (1isize, 2isize),
                    (2isize, 2isize),
                ];
                assert(r@ =~= offsets_spec(*self));
                r
            },
            BrushSize::Huge => {
                let mut offsets: Vec<GridPos> = Vec::new();
                let mut x: isize = -6;
                while x <= 6
                    invariant
                        -6 <= x <= 7,
                        offsets@ =~= Seq::new(
                            ((x + 6) * 13) as nat,
                            |i: int| ((i / 13 - 6) as isize, (i % 13 - 6) as isize),
                        ),
                    decreases 7 - x,
                {
                    let mut y: isize = -6;
                    while y <= 6
                        invariant
                            -6 <= x <= 6,
                            -6 <= y <= 7,
                            offsets@ =~= Seq::new(
                                ((x + 6) * 13 + (y + 6)) as nat,
                                |i: int| ((i / 13 - 6) as isize, (i % 13 - 6) as isize),
                            ),
                        decreases 7 - y,
                    {
                        let ghost n = (x + 6) * 13 + (y + 6);
                        offsets.push((x, y));
                        proof {
                            assert(n / 13 == x + 6 && n % 13 == y + 6) by (nonlinear_arith)
                                requires
                                    n == (x + 6) * 13 + (y + 6),
                                    0 <= y + 6 < 13,
                                    0 <= x + 6,
                            ;
                        }
                        y += 1;
                    }
                    x += 1;
                }
                offsets
            },
        }
    }
}

/// The brush: a size and the kind it paints.
pub struct Brush {
    pub size: BrushSize,
    pub kind: CellKind,
}

impl Brush {
    /// A single-cell sand brush.
    pub fn new() -> (b: Brush)
        ensures
            b.size == BrushSize::Small,
            b.kind == CellKind::Sand,
    {
        Brush { size: BrushSize::Small, kind: CellKind::Sand }
    }

    /// Plants a cell of the brush's kind at every free position that the
    /// brush covers around `pos`.
    pub fn spawn(&mut self, sandbox: &mut Sandbox, pos: GridPos)
        requires
            old(sandbox).wf(),
            old(sandbox).instances().len() + offsets_spec(old(self).size).len() < usize::MAX,
        ensures
            final(sandbox).wf(),
            *final(self) == *old(self),
            forall|p: GridPos| #[trigger]
                old(sandbox).cells().contains_key(p) ==> final(sandbox).cells().contains_key(p)
                    && final(sandbox).cells()[p] == old(sandbox).cells()[p],
            forall|i: int|
                0 <= i < offsets_spec(old(self).size).len() && (#[trigger] offset_pos(
                    pos,
                    offsets_spec(old(self).size)[i],
                )).is_some() ==> final(sandbox).cells().contains_key(
                    offset_pos(pos, offsets_spec(old(self).size)[i]).unwrap(),
                ),
    {
        let offsets = self.size.offsets();
        let mut i: usize = 0;
        while i < offsets.len()
            invariant
                sandbox.wf(),
                *self == *old(self),
                offsets@ == offsets_spec(self.size),
                i <= offsets@.len(),
                sandbox.instances().len() <= old(sandbox).instances().len() + i,
                old(sandbox).instances().len() + offsets@.len() < usize::MAX,
                forall|p: GridPos| #[trigger]
                    old(sandbox).cells().contains_key(p) ==> sandbox.cells().contains_key(p)
                        && sandbox.cells()[p] == old(sandbox).cells()[p],
                forall|j: int|
                    0 <= j < i && (#[trigger] offset_pos(pos, offsets@[j])).is_some()
                        ==> sandbox.cells().contains_key(offset_pos(pos, offsets@[j]).unwrap()),
            decreases offsets@.len() - i,
        {
            if let Some(q) = checked_offset(pos, offsets[i]) {
                if !sandbox.occupied(&q) {
                    sandbox.insert_cell(q, self.kind);
                }
            }
            i += 1;
        }
    }

    /// Clears every position that the brush covers around `pos`.
    pub fn remove(&mut self, sandbox: &mut Sandbox, pos: GridPos)
        requires
            old(sandbox).wf(),
        ensures
            final(sandbox).wf(),
            *final(self) == *old(self),
            forall|i: int|
                0 <= i < offsets_spec(old(self).size).len() && (#[trigger] offset_pos(
                    pos,
                    offsets_spec(old(self).size)[i],
                )).is_some() ==> !final(sandbox).cells().contains_key(
                    offset_pos(pos, offsets_spec(old(self).size)[i]).unwrap(),
                ),
    {
        let offsets = self.size.offsets();
        let mut i: usize = 0;
        while i < offsets.len()
            invariant
                sandbox.wf(),
                *self == *old(self),
                offsets@ == offsets_spec(self.size),
                i <= offsets@.len(),
                forall|j: int|
                    0 <= j < i && (#[trigger] offset_pos(pos, offsets@[j])).is_some()
                        ==> !sandbox.cells().contains_key(offset_pos(pos, offsets@[j]).unwrap()),
            decreases offsets@.len() - i,
        {
            if let Some(q) = checked_offset(pos, offsets[i]) {
                sandbox.remove_cell(q);
            }
            i += 1;
        }
    }
}

} // verus!
