//! Cell kinds, their rule table (movement, transitions, colours), and the
//! per-cell update that proposes a move, a swap or a transition.

use rand::rngs::StdRng;
use vstd::prelude::*;

use crate::grid::CellGrid;
use crate::random::{choose_color, shuffle_offsets};

verus! {

/// A grid coordinate `(x, y)`; `y` grows upwards.
pub type GridPos = (isize, isize);

/// Momentum is kept in fixed point: this many units make one single-cell step.
pub const MOMENTUM_STEP: i64 = 1000;

/// An 8-bit RGBA colour.
#[derive(Debug, Clone, Copy, PartialEq, Eq, Hash, Structural)]
pub struct Rgba {
    pub r: u8,
    pub g: u8,
    pub b: u8,
    pub a: u8,
}

impl Rgba {
    pub fn new(r: u8, g: u8, b: u8, a: u8) -> (c: Rgba)
        ensures
            c == (Rgba { r, g, b, a }),
    {
        Rgba { r, g, b, a }
    }

    /// An opaque colour.
    pub fn rgb(r: u8, g: u8, b: u8) -> (c: Rgba)
        ensures
            c == (Rgba { r, g, b, a: 255 }),
    {
        Rgba { r, g, b, a: 255 }
    }

    /// The colour written as `0xRRGGBBAA`.
    pub fn hex(rgba: u32) -> (c: Rgba)
        ensures
            c.r == rgba / 0x100_0000,
            c.g == (rgba / 0x1_0000) % 0x100,
            c.b == (rgba / 0x100) % 0x100,
            c.a == rgba % 0x100,
    {
        let r = (rgba >> 24) as u8;
        let g = (rgba >> 16) as u8;
        let b = (rgba >> 8) as u8;
        let a = rgba as u8;
        proof {
            assert((rgba >> 24) as u8 == rgba / 0x100_0000) by (bit_vector);
            assert((rgba >> 16) as u8 == (rgba / 0x1_0000) % 0x100) by (bit_vector);
            assert((rgba >> 8) as u8 == (rgba / 0x100) % 0x100) by (bit_vector);
            assert(rgba as u8 == rgba % 0x100) by (bit_vector);
        }
        Rgba { r, g, b, a }
    }
}

#[derive(Debug, Clone, Copy, PartialEq, Eq, PartialOrd, Ord, Hash, Structural)]
pub enum CellKind {
    Sand,
    WetSand,
    Stone,
    Water,
}

/// Which cell a transition rewrites: the moving cell or the one it ran into.
#[derive(Debug, Clone, Copy, PartialEq, Eq, PartialOrd, Ord, Hash, Structural)]
pub enum TransitionTarget {
    This,
    Other,
}

/// A rule: on contact with a cell of kind `condition`, the `target` cell
/// becomes `result`, and the moving cell is removed when `remove` is set.
#[derive(Debug, Clone, Copy, PartialEq, Eq, PartialOrd, Ord, Hash, Structural)]
pub struct CellTransition {
    pub condition: CellKind,
    pub result: CellKind,
    pub remove: bool,
    pub target: TransitionTarget,
}

/// One priority level of movement: offsets that are tried in random order.
pub struct MovementOptionGroup {
    offsets: Vec<GridPos>,
}

pub open spec fn is_liquid_spec(k: CellKind) -> bool {
    k == CellKind::Water
}

pub open spec fn down_and_diagonals() -> Seq<Seq<GridPos>> {
    seq![seq![(0isize, -1isize)], seq![(1isize, -1isize), (-1isize, -1isize)]]
}

/// The movement option groups of each kind, in priority order.
pub open spec fn movement_spec(k: CellKind) -> Seq<Seq<GridPos>> {
    match k {
        CellKind::Sand => down_and_diagonals(),
        CellKind::WetSand => down_and_diagonals(),
        CellKind::Stone => seq![],
        CellKind::Water => down_and_diagonals().push(seq![(1isize, 0isize), (-1isize, 0isize)]),
    }
}

/// The transition table of each kind.
pub open spec fn transitions_spec(k: CellKind) -> Seq<CellTransition> {
    match k {
        CellKind::Sand => seq![
            CellTransition {
                condition: CellKind::Water,
                result: CellKind::WetSand,
                remove: true,
                target: TransitionTarget::Other,
            },
        ],
        CellKind::Water => seq![
            CellTransition {
                condition: CellKind::Sand,
                result: CellKind::WetSand,
                remove: true,
                target: TransitionTarget::Other,
            },
        ],
        _ => seq![],
    }
}

/// The colours that a cell of each kind may be drawn with.
pub open spec fn palette_spec(k: CellKind) -> Seq<Rgba> {
    match k {
        CellKind::Sand => seq![
            Rgba { r: 246, g: 215, b: 176, a: 255 },
            Rgba { r: 242, g: 210, b: 169, a: 255 },
            Rgba { r: 236, g: 204, b: 162, a: 255 },
            Rgba { r: 231, g: 196, b: 150, a: 255 },
            Rgba { r: 225, g: 191, b: 146, a: 255 },
        ],
        CellKind::WetSand => seq![
            Rgba { r: 237, g: 177, b: 100, a: 255 },
            Rgba { r: 231, g: 173, b: 98, a: 255 },
            Rgba { r: 222, g: 168, b: 96, a: 255 },
            Rgba { r: 217, g: 161, b: 88, a: 255 },
            Rgba { r: 209, g: 157, b: 88, a: 255 },
        ],
        CellKind::Stone => seq![
            Rgba { r: 80, g: 80, b: 80, a: 255 },
            Rgba { r: 88, g: 88, b: 88, a: 255 },
            Rgba { r: 100, g: 100, b: 100, a: 255 },
            Rgba { r: 65, g: 65, b: 65, a: 255 },
            Rgba { r: 50, g: 50, b: 50, a: 255 },
        ],
        CellKind::Water => seq![
            Rgba { r: 0, g: 159, b: 200, a: 255 },
            Rgba { r: 0, g: 171, b: 215, a: 255 },
            Rgba { r: 0, g: 181, b: 228, a: 255 },
            Rgba { r: 31, g: 193, b: 234, a: 255 },
            Rgba { r: 57, g: 208, b: 247, a: 255 },
        ],
    }
}

/// The first rule of `ts` whose condition is `k`.
pub open spec fn find_transition(ts: Seq<CellTransition>, k: CellKind) -> Option<CellTransition>
    decreases ts.len(),
{
    if ts.len() == 0 {
        None
    } else if ts[0].condition == k {
        Some(ts[0])
    } else {
        find_transition(ts.drop_first(), k)
    }
}

impl View for MovementOptionGroup {
    type V = Seq<GridPos>;

    closed spec fn view(&self) -> Seq<GridPos> {
        self.offsets@
    }
}

impl MovementOptionGroup {
    /// The group's offsets in a fresh random order.
    pub fn shuffled(&self, rng: &mut StdRng) -> (r: Vec<GridPos>)
        ensures
            r@.len() == self@.len(),
            r@.to_multiset() == self@.to_multiset(),
    {
        let mut v: Vec<GridPos> = Vec::new();
        let mut i: usize = 0;
        while i < self.offsets.len()
            invariant
                i <= self.offsets@.len(),
                v@ == self.offsets@.subrange(0, i as int),
            decreases self.offsets@.len() - i,
        {
            v.push(self.offsets[i]);
            i += 1;
            assert(v@ =~= self.offsets@.subrange(0, i as int));
        }
        assert(v@ =~= self.offsets@);
        shuffle_offsets(&mut v, rng);
        v
    }
}

fn group(offsets: Vec<GridPos>) -> (g: MovementOptionGroup)
    ensures
        g@ == offsets@,
{
    MovementOptionGroup { offsets }
}

impl CellKind {
    /// The kind's colour palette.
    pub fn palette(&self) -> (r: Vec<Rgba>)
        ensures
            r@ == palette_spec(*self),
    {
        let v = match self {
            CellKind::Sand => vec![
                Rgba { r: 246, g: 215, b: 176, a: 255 },
                Rgba { r: 242, g: 210, b: 169, a: 255 },
                Rgba { r: 236, g: 204, b: 162, a: 255 },
                Rgba { r: 231, g: 196, b: 150, a: 255 },
                Rgba { r: 225, g: 191, b: 146, a: 255 },
            ],
            CellKind::WetSand => vec![
                Rgba { r: 237, g: 177, b: 100, a: 255 },
                Rgba { r: 231, g: 173, b: 98, a: 255 },
                Rgba { r: 222, g: 168, b: 96, a: 255 },
                Rgba { r: 217, g: 161, b: 88, a: 255 },
                Rgba { r: 209, g: 157, b: 88, a: 255 },
            ],
            CellKind::Stone => vec![
                Rgba { r: 80, g: 80, b: 80, a: 255 },
                Rgba { r: 88, g: 88, b: 88, a: 255 },
                Rgba { r: 100, g: 100, b: 100, a: 255 },
                Rgba { r: 65, g: 65, b: 65, a: 255 },
                Rgba { r: 50, g: 50, b: 50, a: 255 },
            ],
            CellKind::Water => vec![
                Rgba { r: 0, g: 159, b: 200, a: 255 },
                Rgba { r: 0, g: 171, b: 215, a: 255 },
                Rgba { r: 0, g: 181, b: 228, a: 255 },
                Rgba { r: 31, g: 193, b: 234, a: 255 },
                Rgba { r: 57, g: 208, b: 247, a: 255 },
            ],
        };
        assert(v@ =~= palette_spec(*self));
        v
    }

    /// A colour drawn at random from the kind's palette.
    pub fn color(&self, rng: &mut StdRng) -> (c: Rgba)
        ensures
            palette_spec(*self).contains(c),
    {
        let p = self.palette();
        match choose_color(&p, rng) {
            Some(c) => c,
            None => p[0],
        }
    }

    /// The movement option groups, tried in this order.
    pub fn movement(&self) -> (r: Vec<MovementOptionGroup>)
        ensures
            r@.len() == movement_spec(*self).len(),
            forall|i: int| 0 <= i < r@.len() ==> (#[trigger] r@[i])@ == movement_spec(*self)[i],
    {
        let mut r: Vec<MovementOptionGroup> = Vec::new();
        match self {
            CellKind::Stone => {},
            _ => {
                r.push(group(vec![(0isize, -1isize)]));
                r.push(group(vec![(1isize, -1isize), (-1isize, -1isize)]));
                if let CellKind::Water = self {
                    r.push(group(vec![(1isize, 0isize), (-1isize, 0isize)]));
                }
            },
        }
        r
    }

    /// The transition table.
    pub fn transitions(&self) -> (r: Vec<CellTransition>)
        ensures
            r@ == transitions_spec(*self),
    {
        let r = match self {
            CellKind::Sand => vec![
                CellTransition {
                    condition: CellKind::Water,
                    result: CellKind::WetSand,
                    remove: true,
                    target: TransitionTarget::Other,
                },
            ],
            CellKind::Water => vec![
                CellTransition {
                    condition: CellKind::Sand,
                    result: CellKind::WetSand,
                    remove: true,
                    target: TransitionTarget::Other,
                },
            ],
            _ => Vec::new(),
        };
        assert(r@ =~= transitions_spec(*self));
        r
    }

    pub fn is_liquid(&self) -> (r: bool)
        ensures
            r == is_liquid_spec(*self),
    {
        matches!(self, CellKind::Water)
    }
}

/// One live grid occupant. `idx` is the slot of its render record.
#[derive(Debug, Clone, Copy, PartialEq, Eq, Structural)]
pub struct Cell {
    pub kind: CellKind,
    pub idx: usize,
    /// Fixed-point momentum, `MOMENTUM_STEP` units per step.
    pub momentum: i64,
    /// Stalled ticks left before the cell falls asleep.
    pub sleep_counter: u32,
    pub sleeping: bool,
}

/// The cell after one stalled tick.
pub open spec fn sleep_spec(c: Cell) -> Cell {
    let counter = if c.sleep_counter > 0 { (c.sleep_counter - 1) as u32 } else { 0u32 };
    Cell { sleep_counter: counter, sleeping: c.sleeping || counter == 0, ..c }
}

/// The cell after `n` stalled ticks in a row.
pub open spec fn stalled(c: Cell, n: nat) -> Cell
    decreases n,
{
    if n == 0 { c } else { sleep_spec(stalled(c, (n - 1) as nat)) }
}

/// An awake cell whose counter is `n > 0` stays awake for `n - 1` stalled ticks
/// and is asleep after the `n`-th one.
pub proof fn lemma_sleeps_after_stalls(c: Cell)
    requires
        !c.sleeping,
        c.sleep_counter > 0,
    ensures
        stalled(c, c.sleep_counter as nat).sleeping,
        forall|k: nat| k < c.sleep_counter ==> !(#[trigger] stalled(c, k)).sleeping,
{
    assert forall|k: nat| k <= c.sleep_counter implies (#[trigger] stalled(c, k)).sleep_counter
        == c.sleep_counter - k && (stalled(c, k).sleeping <==> k == c.sleep_counter) by {
        lemma_stalled_counter(c, k);
    }
}

proof fn lemma_stalled_counter(c: Cell, k: nat)
    requires
        !c.sleeping,
        c.sleep_counter > 0,
        k <= c.sleep_counter,
    ensures
        stalled(c, k).sleep_counter == c.sleep_counter - k,
        stalled(c, k).sleeping <==> k == c.sleep_counter,
        stalled(c, k).kind == c.kind,
    decreases k,
{
    if k > 0 {
        lemma_stalled_counter(c, (k - 1) as nat);
    }
}

impl Cell {
    /// A fresh, awake cell at rest.
    pub fn new(kind: CellKind, idx: usize) -> (c: Cell)
        ensures
            c == (Cell { kind, idx, momentum: 0, sleep_counter: 0, sleeping: false }),
    {
        Cell { kind, idx, momentum: 0, sleep_counter: 0, sleeping: false }
    }

    pub fn asleep(&self) -> (r: bool)
        ensures
            r == self.sleeping,
    {
        self.sleeping
    }

    /// Counts one stalled tick; the cell falls asleep when the counter is spent.
    pub fn sleep(&mut self)
        ensures
            *final(self) == sleep_spec(*old(self)),
    {
        self.sleep_counter = self.sleep_counter.saturating_sub(1);
        if self.sleep_counter == 0 {
            self.sleeping = true;
        }
    }

    /// Wakes the cell and gives it `ticks` stalled ticks before it sleeps again.
    pub fn wake(&mut self, ticks: u32)
        ensures
            *final(self) == (Cell { sleeping: false, sleep_counter: ticks, ..*old(self) }),
    {
        self.sleeping = false;
        self.sleep_counter = ticks;
    }
}

/// What one cell's update proposes; the grid applies it afterwards.
#[derive(Debug, Clone, Copy, PartialEq, Eq)]
pub struct CellUpdate {
    /// Whether anything happened: a move, a swap or a transition.
    pub updated: bool,
    /// Where the cell ended up, or the cell it swaps or transitions with.
    pub new_pos: Option<GridPos>,
    pub new_momentum: i64,
    pub transition: Option<CellTransition>,
    pub swapped: bool,
    /// Single-cell steps accepted during the walk.
    pub steps: u64,
}

/// `p + o`, when both coordinates fit.
pub open spec fn offset_pos(p: GridPos, o: GridPos) -> Option<GridPos> {
    let x = p.0 + o.0;
    let y = p.1 + o.1;
    if isize::MIN <= x <= isize::MAX && isize::MIN <= y <= isize::MAX {
        Some((x as isize, y as isize))
    } else {
        None
    }
}

/// Whether meeting a cell of kind `other` stops a cell of kind `me` with a
/// transition or a swap.
pub open spec fn triggers(me: CellKind, other: CellKind) -> bool {
    find_transition(transitions_spec(me), other).is_some() || (is_liquid_spec(other)
        && !is_liquid_spec(me))
}

/// Whether the candidate position is free for `me`, or holds a cell that `me`
/// reacts with.
pub open spec fn open_at(me: CellKind, cells: Map<GridPos, Cell>, q: Option<GridPos>) -> bool {
    match q {
        None => false,
        Some(p) => !cells.contains_key(p) || triggers(me, cells[p].kind),
    }
}

/// The candidates of one pass over a group: the group in random order `sh`,
/// preceded by the last successful direction when there is one.
pub open spec fn cands_of(sh: Seq<GridPos>, last: Option<GridPos>) -> Seq<GridPos> {
    match last {
        Some(l) => sh.insert(0, l),
        None => sh,
    }
}

/// Whether a pass over the group `g` from `at`, retrying `last` first, finds
/// an open candidate.
pub open spec fn group_open(
    me: CellKind,
    cells: Map<GridPos, Cell>,
    at: GridPos,
    last: Option<GridPos>,
    g: Seq<GridPos>,
) -> bool {
    (last matches Some(l) && open_at(me, cells, offset_pos(at, l))) || exists|j: int|
        0 <= j < g.len() && open_at(me, cells, #[trigger] offset_pos(at, g[j]))
}

/// Whether a cell of kind `me` at `pos` has anything to do in `cells`.
pub open spec fn has_legal_move(me: CellKind, cells: Map<GridPos, Cell>, pos: GridPos) -> bool {
    exists|i: int|
        0 <= i < movement_spec(me).len() && #[trigger] group_open(me, cells, pos, None, movement_spec(me)[i])
}

/// The cell's first option group is a single offset whose target holds a cell
/// it reacts with: whatever the random order, that is the first thing it meets.
pub open spec fn first_contact(me: CellKind, cells: Map<GridPos, Cell>, pos: GridPos) -> bool {
    &&& movement_spec(me).len() > 0
    &&& movement_spec(me)[0].len() == 1
    &&& match offset_pos(pos, movement_spec(me)[0][0]) {
        Some(q) => cells.contains_key(q) && triggers(me, cells[q].kind),
        None => false,
    }
}

/// `d` is an offset of one of the option groups of `me`.
pub open spec fn group_dir(me: CellKind, d: GridPos) -> bool {
    exists|g: int, j: int|
        0 <= g < movement_spec(me).len() && 0 <= j < movement_spec(me)[g].len() && #[trigger] movement_spec(me)[g][j]
            == d
}

/// The direction retried first before step `i`: the one step `i - 1` took.
pub open spec fn prev_dir(dirs: Seq<GridPos>, i: int) -> Option<GridPos> {
    if i == 0 { None } else { Some(dirs[i - 1]) }
}

/// One accepted step from `p` to the free position `q` in direction `d`, found
/// in group `g`: `d` is that group's offset (or the retried direction `prev`),
/// and no earlier group had an open candidate.
pub open spec fn step_ok(
    me: CellKind,
    cells: Map<GridPos, Cell>,
    p: GridPos,
    q: GridPos,
    d: GridPos,
    g: int,
    prev: Option<GridPos>,
) -> bool {
    &&& offset_pos(p, d) == Some(q)
    &&& !cells.contains_key(q)
    &&& d != (0isize, 0isize)
    &&& group_dir(me, d)
    &&& 0 <= g < movement_spec(me).len()
    &&& (prev == Some(d) || movement_spec(me)[g].contains(d))
    &&& forall|g2: int| 0 <= g2 < g ==> !group_open(me, cells, p, prev, #[trigger] movement_spec(me)[g2])
}

/// The cell met from `p` lies in direction `d`, found in group `g`: `d` is
/// that group's offset (or the retried direction `prev`), and no earlier group
/// had an open candidate.
pub open spec fn contact_ok(
    me: CellKind,
    cells: Map<GridPos, Cell>,
    p: GridPos,
    q: Option<GridPos>,
    d: GridPos,
    g: int,
    prev: Option<GridPos>,
) -> bool {
    &&& offset_pos(p, d) == q
    &&& group_dir(me, d)
    &&& 0 <= g < movement_spec(me).len()
    &&& (prev == Some(d) || movement_spec(me)[g].contains(d))
    &&& forall|g2: int| 0 <= g2 < g ==> !group_open(me, cells, p, prev, #[trigger] movement_spec(me)[g2])
}

/// `path` is the walk that the update `u` of a cell of kind `me` at `pos` took,
/// with `dirs` its step directions and `gs` the groups they came from: it ends
/// where a plain move ends, and one group offset short of the cell that a swap
/// or transition meets.
pub open spec fn walk(
    me: CellKind,
    cells: Map<GridPos, Cell>,
    pos: GridPos,
    path: Seq<GridPos>,
    dirs: Seq<GridPos>,
    gs: Seq<int>,
    u: CellUpdate,
) -> bool {
    &&& path.len() == u.steps + 1
    &&& dirs.len() == u.steps
    &&& gs.len() == u.steps
    &&& path[0] == pos
    &&& forall|i: int|
        0 <= i < u.steps ==> #[trigger] step_ok(me, cells, path[i], path[i + 1], dirs[i], gs[i], prev_dir(dirs, i))
    &&& (u.updated && u.transition.is_none() && !u.swapped) ==> u.new_pos == Some(path.last())
    &&& (u.transition.is_some() || u.swapped) ==> exists|d: GridPos, g: int| #[trigger] contact_ok(
        me,
        cells,
        path.last(),
        u.new_pos,
        d,
        g,
        prev_dir(dirs, u.steps as int),
    )
}

/// No option group of any kind holds the null offset.
proof fn lemma_offsets_nonzero(me: CellKind)
    ensures
        forall|g: int, j: int|
            0 <= g < movement_spec(me).len() && 0 <= j < movement_spec(me)[g].len() ==> #[trigger] movement_spec(
                me,
            )[g][j] != (0isize, 0isize),
{
}

/// A candidate of a pass is the retried direction or an offset of the group.
proof fn lemma_candidate(me: CellKind, gi: int, sh: Seq<GridPos>, last: Option<GridPos>, c: int)
    requires
        0 <= gi < movement_spec(me).len(),
        sh.to_multiset() == movement_spec(me)[gi].to_multiset(),
        0 <= c < cands_of(sh, last).len(),
    ensures
        (last == Some(cands_of(sh, last)[c])) || movement_spec(me)[gi].contains(cands_of(sh, last)[c]),
        movement_spec(me)[gi].contains(cands_of(sh, last)[c]) ==> group_dir(me, cands_of(sh, last)[c]),
        last.is_none() ==> movement_spec(me)[gi].contains(cands_of(sh, last)[c]),
{
    broadcast use vstd::seq_lib::group_to_multiset_ensures;

    let cands = cands_of(sh, last);
    let g = movement_spec(me)[gi];
    let x = cands[c];
    let k = if last.is_some() { c - 1 } else { c };
    if k >= 0 {
        assert(sh[k] == x);
        assert(sh.contains(x));
        assert(sh.to_multiset().count(x) > 0);
        assert(g.to_multiset().count(x) > 0);
        assert(g.contains(x));
    }
    if g.contains(x) {
        let j = choose|j: int| 0 <= j < g.len() && g[j] == x;
        assert(movement_spec(me)[gi][j] == x);
    }
}

proof fn lemma_group_blocked(
    me: CellKind,
    cells: Map<GridPos, Cell>,
    at: GridPos,
    last: Option<GridPos>,
    g: Seq<GridPos>,
    sh: Seq<GridPos>,
)
    requires
        sh.to_multiset() == g.to_multiset(),
        forall|c: int|
            0 <= c < cands_of(sh, last).len() ==> !open_at(me, cells, #[trigger] offset_pos(at, cands_of(sh, last)[c])),
    ensures
        !group_open(me, cells, at, last, g),
{
    broadcast use vstd::seq_lib::group_to_multiset_ensures;

    let cands = cands_of(sh, last);
    let off: int = if last.is_some() { 1 } else { 0 };
    if let Some(l) = last {
        assert(cands[0] == l);
    }
    assert forall|j: int| 0 <= j < g.len() implies !open_at(me, cells, #[trigger] offset_pos(at, g[j])) by {
        assert(g.contains(g[j]));
        assert(g.to_multiset().count(g[j]) > 0);
        assert(sh.to_multiset().count(g[j]) > 0);
        assert(sh.contains(g[j]));
        let k = choose|k: int| 0 <= k < sh.len() && sh[k] == g[j];
        assert(cands[k + off] == g[j]);
    }
}

pub(crate) fn same_pos(a: GridPos, b: GridPos) -> (r: bool)
    ensures
        r == (a == b),
{
    a.0 == b.0 && a.1 == b.1
}

pub(crate) fn checked_offset(p: GridPos, o: GridPos) -> (r: Option<GridPos>)
    ensures
        r == offset_pos(p, o),
{
    match (p.0.checked_add(o.0), p.1.checked_add(o.1)) {
        (Some(x), Some(y)) => Some((x, y)),
        _ => None,
    }
}

fn find_transition_in(ts: &Vec<CellTransition>, k: CellKind) -> (r: Option<CellTransition>)
    ensures
        r == find_transition(ts@, k),
{
    let mut i: usize = 0;
    assert(ts@.subrange(0, ts@.len() as int) =~= ts@);
    while i < ts.len()
        invariant
            i <= ts@.len(),
            find_transition(ts@, k) == find_transition(ts@.subrange(i as int, ts@.len() as int), k),
        decreases ts@.len() - i,
    {
        let ghost rest = ts@.subrange(i as int, ts@.len() as int);
        assert(rest.drop_first() =~= ts@.subrange(i + 1, ts@.len() as int));
        if ts[i].condition == k {
            return Some(ts[i]);
        }
        i += 1;
    }
    None
}

impl Cell {
    /// Resolves one tick of movement for this cell at `pos` against a read-only
    /// view of the grid. Momentum grows by `acceleration`; while it is positive
    /// the cell walks one free step at a time (momentum falls by one step
    /// each), trying the option groups in priority order, the last successful
    /// direction first and the rest of each group in random order. Meeting a
    /// cell that a transition names, or a liquid when the cell is not one,
    /// ends the walk at once with that transition or swap. When a whole pass
    /// finds nothing, momentum is zeroed.
    pub fn update(&self, pos: GridPos, grid: &CellGrid, acceleration: i64, rng: &mut StdRng) -> (u: CellUpdate)
        requires
            i64::MIN <= self.momentum + acceleration <= i64::MAX,
        ensures
            u.updated == u.new_pos.is_some(),
            !u.updated <==> (self.momentum + acceleration <= 0 || !has_legal_move(
                self.kind,
                grid.cells(),
                pos,
            )),
            !u.updated ==> u.steps == 0 && !u.swapped && u.transition.is_none(),
            u.transition.is_some() ==> (u.new_pos matches Some(q) && grid.cells().contains_key(q)
                && u.transition == find_transition(transitions_spec(self.kind), grid.cells()[q].kind)
                && !u.swapped && u.new_momentum == 0),
            u.swapped ==> (u.new_pos matches Some(q) && grid.cells().contains_key(q) && is_liquid_spec(
                grid.cells()[q].kind,
            ) && !is_liquid_spec(self.kind) && find_transition(
                transitions_spec(self.kind),
                grid.cells()[q].kind,
            ).is_none() && u.new_momentum == 0),
            (u.updated && u.transition.is_none() && !u.swapped) ==> (u.new_pos matches Some(q)
                && !grid.cells().contains_key(q) && u.steps > 0),
            (u.transition.is_none() && !u.swapped) ==> (u.new_momentum == 0 || (u.new_momentum
                == self.momentum + acceleration - u.steps * MOMENTUM_STEP && u.new_momentum <= 0)),
            u.steps == 0 || u.steps * MOMENTUM_STEP < self.momentum + acceleration + MOMENTUM_STEP,
            (u.transition.is_some() || u.swapped) ==> u.steps * MOMENTUM_STEP < self.momentum + acceleration,
            (self.momentum + acceleration > 0 && first_contact(self.kind, grid.cells(), pos)) ==> (u.new_pos
                == offset_pos(pos, movement_spec(self.kind)[0][0]) && (u.transition.is_some() || u.swapped)),
            exists|path: Seq<GridPos>, dirs: Seq<GridPos>, gs: Seq<int>| #[trigger] walk(
                self.kind,
                grid.cells(),
                pos,
                path,
                dirs,
                gs,
                u,
            ),
    {
        let m0: i64 = self.momentum + acceleration;
        let kind = self.kind;
        let transitions = kind.transitions();
        let groups = kind.movement();
        let me_liquid = kind.is_liquid();
        let ghost cells = grid.cells();

        let mut tmp: GridPos = pos;
        let mut momentum: i64 = m0;
        let mut last: GridPos = (0isize, 0isize);
        let mut steps: u64 = 0;
        let mut dead_end = false;
        let ghost mut path: Seq<GridPos> = seq![pos];
        let ghost mut dirs: Seq<GridPos> = Seq::empty();
        let ghost mut gs: Seq<int> = Seq::empty();
        proof {
            lemma_offsets_nonzero(kind);
        }

        while momentum > 0
            invariant_except_break
                !dead_end,
            invariant
                cells == grid.cells(),
                kind == self.kind,
                m0 == self.momentum + acceleration,
                transitions@ == transitions_spec(kind),
                me_liquid == is_liquid_spec(kind),
                groups@.len() == movement_spec(kind).len(),
                forall|i: int| 0 <= i < groups@.len() ==> (#[trigger] groups@[i])@ == movement_spec(kind)[i],
                forall|g: int, j: int|
                    0 <= g < movement_spec(kind).len() && 0 <= j < movement_spec(kind)[g].len() ==> #[trigger] movement_spec(
                        kind,
                    )[g][j] != (0isize, 0isize),
                momentum == m0 - steps * MOMENTUM_STEP,
                steps == 0 || momentum > -MOMENTUM_STEP,
                steps == 0 ==> tmp == pos,
                steps > 0 ==> !cells.contains_key(tmp) && has_legal_move(kind, cells, pos),
                first_contact(kind, cells, pos) ==> steps == 0,
                path.len() == steps + 1,
                dirs.len() == steps,
                gs.len() == steps,
                path[0] == pos,
                path.last() == tmp,
                steps > 0 ==> dirs.last() == last && group_dir(kind, last),
                forall|k: int|
                    0 <= k < steps ==> #[trigger] step_ok(kind, cells, path[k], path[k + 1], dirs[k], gs[k], prev_dir(dirs, k)),
            ensures
                dead_end ==> (steps == 0 ==> !has_legal_move(kind, cells, pos)),
                !dead_end ==> momentum <= 0,
            decreases momentum + MOMENTUM_STEP,
        {
            let ghost steps0 = steps;
            let ghost momentum0 = momentum;
            let ghost lastopt: Option<GridPos> = prev_dir(dirs, steps as int);
            let mut moved = false;
            let mut gi: usize = 0;
            while gi < groups.len() && !moved
                invariant
                    cells == grid.cells(),
                    kind == self.kind,
                    m0 == self.momentum + acceleration,
                    transitions@ == transitions_spec(kind),
                    me_liquid == is_liquid_spec(kind),
                    groups@.len() == movement_spec(kind).len(),
                    forall|i: int| 0 <= i < groups@.len() ==> (#[trigger] groups@[i])@ == movement_spec(kind)[i],
                    forall|g: int, j: int|
                        0 <= g < movement_spec(kind).len() && 0 <= j < movement_spec(kind)[g].len() ==> #[trigger] movement_spec(
                            kind,
                        )[g][j] != (0isize, 0isize),
                    gi <= groups@.len(),
                    momentum0 > 0,
                    momentum0 == m0 - steps0 * MOMENTUM_STEP,
                    steps0 == 0 || momentum0 > -MOMENTUM_STEP,
                    steps0 > 0 ==> has_legal_move(kind, cells, pos),
                    first_contact(kind, cells, pos) ==> (steps0 == 0 && gi == 0 && !moved),
                    !moved ==> (steps == steps0 && momentum == momentum0 && lastopt == prev_dir(dirs, steps as int)),
                    !moved ==> (steps0 == 0 ==> tmp == pos),
                    !moved ==> (steps0 > 0 ==> !cells.contains_key(tmp)),
                    !moved ==> forall|g: int| 0 <= g < gi ==> !group_open(kind, cells, tmp, lastopt, #[trigger] movement_spec(kind)[g]),
                    moved ==> (steps == steps0 + 1 && momentum == momentum0 - MOMENTUM_STEP
                        && !cells.contains_key(tmp) && has_legal_move(kind, cells, pos)),
                    path.len() == steps + 1,
                    dirs.len() == steps,
                    gs.len() == steps,
                    path[0] == pos,
                    path.last() == tmp,
                    steps > 0 ==> dirs.last() == last && group_dir(kind, last),
                    forall|k: int|
                        0 <= k < steps ==> #[trigger] step_ok(kind, cells, path[k], path[k + 1], dirs[k], gs[k], prev_dir(dirs, k)),
                decreases groups@.len() - gi,
            {
                let mut cands = groups[gi].shuffled(rng);
                let ghost sh = cands@;
                if steps > 0 {
                    cands.insert(0, last);
                }
                proof {
                    broadcast use vstd::seq_lib::group_to_multiset_ensures;

                    assert(cands@ == cands_of(sh, lastopt));
                    if first_contact(kind, cells, pos) {
                        let g0 = movement_spec(kind)[0];
                        assert(g0.contains(g0[0]));
                        assert(g0.to_multiset().count(g0[0]) > 0);
                        assert(sh.to_multiset().count(g0[0]) > 0);
                        assert(sh.contains(g0[0]));
                        assert(sh[0] == g0[0]);
                    }
                }
                let mut ci: usize = 0;
                while ci < cands.len() && !moved
                    invariant
                        cells == grid.cells(),
                        kind == self.kind,
                        m0 == self.momentum + acceleration,
                        transitions@ == transitions_spec(kind),
                        me_liquid == is_liquid_spec(kind),
                        gi < groups@.len(),
                        groups@.len() == movement_spec(kind).len(),
                        groups@[gi as int]@ == movement_spec(kind)[gi as int],
                        forall|g: int, j: int|
                            0 <= g < movement_spec(kind).len() && 0 <= j < movement_spec(kind)[g].len() ==> #[trigger] movement_spec(
                                kind,
                            )[g][j] != (0isize, 0isize),
                        sh.to_multiset() == movement_spec(kind)[gi as int].to_multiset(),
                        ci <= cands@.len(),
                        momentum0 > 0,
                        momentum0 == m0 - steps0 * MOMENTUM_STEP,
                        steps0 == 0 || momentum0 > -MOMENTUM_STEP,
                        steps0 > 0 ==> has_legal_move(kind, cells, pos),
                        !moved ==> cands@ == cands_of(sh, lastopt),
                        !moved ==> (steps == steps0 && momentum == momentum0 && lastopt == prev_dir(dirs, steps as int)),
                        !moved ==> (steps0 == 0 ==> tmp == pos),
                        !moved ==> (steps0 > 0 ==> !cells.contains_key(tmp)),
                        !moved ==> forall|c: int| 0 <= c < ci ==> !open_at(kind, cells, #[trigger] offset_pos(tmp, cands@[c])),
                        !moved ==> forall|g: int| 0 <= g < gi ==> !group_open(kind, cells, tmp, lastopt, #[trigger] movement_spec(kind)[g]),
                        moved ==> (steps == steps0 + 1 && momentum == momentum0 - MOMENTUM_STEP
                            && !cells.contains_key(tmp) && has_legal_move(kind, cells, pos)),
                        first_contact(kind, cells, pos) ==> (steps0 == 0 && gi == 0 && !moved && ci == 0
                            && cands@[0] == movement_spec(kind)[0][0]),
                        path.len() == steps + 1,
                        dirs.len() == steps,
                        gs.len() == steps,
                        path[0] == pos,
                        path.last() == tmp,
                        steps > 0 ==> dirs.last() == last && group_dir(kind, last),
                        forall|k: int|
                            0 <= k < steps ==> #[trigger] step_ok(kind, cells, path[k], path[k + 1], dirs[k], gs[k], prev_dir(dirs, k)),
                    decreases cands@.len() - ci,
                {
                    let off = cands[ci];
                    if let Some(next) = checked_offset(tmp, off) {
                        proof {
                            lemma_candidate(kind, gi as int, sh, lastopt, ci as int);
                            if steps0 == 0 {
                                let g = movement_spec(kind)[gi as int];
                                let j = choose|j: int| 0 <= j < g.len() && g[j] == off;
                                assert(offset_pos(pos, g[j]) == Some(next));
                            }
                        }
                        match grid.get(&next) {
                            None => {
                                proof {
                                    if steps0 == 0 {
                                        assert(group_open(kind, cells, pos, None, movement_spec(kind)[gi as int]));
                                        assert(has_legal_move(kind, cells, pos));
                                    }
                                    assert(group_dir(kind, off));
                                    assert(step_ok(kind, cells, tmp, next, off, gi as int, lastopt));
                                    let p2 = path.push(next);
                                    let d2 = dirs.push(off);
                                    let g2 = gs.push(gi as int);
                                    assert(prev_dir(d2, steps as int) == lastopt);
                                    assert forall|k: int| 0 <= k < steps + 1 implies #[trigger] step_ok(
                                        kind,
                                        cells,
                                        p2[k],
                                        p2[k + 1],
                                        d2[k],
                                        g2[k],
                                        prev_dir(d2, k),
                                    ) by {
                                        if k < steps {
                                            assert(p2[k] == path[k] && p2[k + 1] == path[k + 1] && d2[k] == dirs[k]
                                                && g2[k] == gs[k] && prev_dir(d2, k) == prev_dir(dirs, k));
                                        }
                                    }
                                    path = p2;
                                    dirs = d2;
                                    gs = g2;
                                }
                                tmp = next;
                                last = off;
                                steps = steps + 1;
                                momentum = momentum - MOMENTUM_STEP;
                                moved = true;
                            },
                            Some(collider) => {
                                let found = find_transition_in(&transitions, collider.kind);
                                if found.is_some() || (collider.kind.is_liquid() && !me_liquid) {
                                    proof {
                                        if steps0 == 0 {
                                            assert(group_open(kind, cells, pos, None, movement_spec(kind)[gi as int]));
                                            assert(has_legal_move(kind, cells, pos));
                                        }
                                        assert(group_dir(kind, off));
                                        assert(offset_pos(path.last(), off) == Some(next));
                                        assert(contact_ok(kind, cells, tmp, Some(next), off, gi as int, lastopt));
                                    }
                                    let ghost res = CellUpdate {
                                        updated: true,
                                        new_pos: Some(next),
                                        new_momentum: 0,
                                        transition: found,
                                        swapped: found.is_none(),
                                        steps,
                                    };
                                    assert(walk(kind, cells, pos, path, dirs, gs, res));
                                    return CellUpdate {
                                        updated: true,
                                        new_pos: Some(next),
                                        new_momentum: 0,
                                        transition: found,
                                        swapped: found.is_none(),
                                        steps,
                                    };
                                }
                            },
                        }
                    }
                    ci += 1;
                }
                proof {
                    if !moved {
                        lemma_group_blocked(kind, cells, tmp, lastopt, movement_spec(kind)[gi as int], sh);
                    }
                }
                gi += 1;
            }
            if !moved {
                proof {
                    if steps == 0 {
                        assert forall|i: int| 0 <= i < movement_spec(kind).len() implies !#[trigger] group_open(
                            kind,
                            cells,
                            pos,
                            None,
                            movement_spec(kind)[i],
                        ) by {}
                    }
                }
                dead_end = true;
                break;
            }
        }
        proof {
            if first_contact(kind, cells, pos) {
                let g0 = movement_spec(kind)[0];
                assert(open_at(kind, cells, offset_pos(pos, g0[0])));
                assert(group_open(kind, cells, pos, None, g0));
                assert(has_legal_move(kind, cells, pos));
            }
        }
        let res = CellUpdate {
            updated: steps > 0,
            new_pos: if steps > 0 { Some(tmp) } else { None },
            new_momentum: if dead_end { 0 } else { momentum },
            transition: None,
            swapped: false,
            steps,
        };
        assert(walk(kind, cells, pos, path, dirs, gs, res));
        res
    }
}

} // verus!
