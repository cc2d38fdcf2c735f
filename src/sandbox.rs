//! The grid store: the authoritative map from position to cell, the list of
//! cells that update each tick, and the render slots they own.

use rand::rngs::StdRng;
use vstd::prelude::*;

use crate::cell::{
    checked_offset, find_transition, first_contact, walk, step_ok, contact_ok, group_open, MOMENTUM_STEP, has_legal_move, is_liquid_spec, movement_spec, offset_pos,
    palette_spec, same_pos, sleep_spec, transitions_spec, Cell, CellKind, CellTransition, CellUpdate,
    GridPos, TransitionTarget,
};
use crate::grid::{grid_cells, CellGrid};
use crate::instance::{Instance, InstanceData, Transform};
use crate::cell::Rgba;
use crate::random::seeded_rng;

verus! {

/// World units per grid cell.
pub const GRID_SIZE: u32 = 32;

/// The largest magnitude allowed for the configured acceleration and cap: a
/// thousand million steps per tick. With stored momenta bounded by
/// `MOMENTUM_BOUND`, momentum plus acceleration then always fits in an `i64`.
pub const CONFIG_LIMIT: i64 = 1_000_000_000_000;

/// No stored momentum exceeds this magnitude (twice the largest cap plus the
/// largest acceleration, with room to spare).
pub const MOMENTUM_BOUND: i64 = 4_000_000_000_000;

/// The tunable constants of the simulation.
#[derive(Debug, Clone, Copy, PartialEq, Eq, Structural)]
pub struct SimConfig {
    /// Length of one tick, in microseconds.
    pub tick_period: u64,
    /// Momentum gained per tick, in units of `MOMENTUM_STEP` per step.
    pub acceleration: i64,
    /// A cell whose momentum magnitude exceeds this is ejected.
    pub momentum_cap: i64,
    /// Stalled ticks before a cell falls asleep.
    pub sleep_ticks: u32,
    /// Cells within this Chebyshev distance are woken by a disturbance.
    pub wake_radius: isize,
}

impl SimConfig {
    /// A positive tick; acceleration and cap within `CONFIG_LIMIT`, so that
    /// momentum arithmetic fits in an `i64`; a radius whose scan counter
    /// cannot overflow.
    pub open spec fn wf(&self) -> bool {
        &&& self.tick_period > 0
        &&& 0 <= self.momentum_cap <= CONFIG_LIMIT
        &&& -CONFIG_LIMIT <= self.acceleration <= CONFIG_LIMIT
        &&& 0 <= self.wake_radius < isize::MAX
    }
}

impl Default for SimConfig {
    /// A 24 Hz tick, a fall of five steps per second per second, ejection above
    /// 75 steps of momentum, 25 stalled ticks before sleep, waking within 3 cells.
    fn default() -> (c: SimConfig)
        ensures
            c == default_config(),
    {
        SimConfig {
            tick_period: 41_667,
            acceleration: 208,
            momentum_cap: 75_000,
            sleep_ticks: 25,
            wake_radius: 3,
        }
    }
}

/// The reference configuration.
pub open spec fn default_config() -> SimConfig {
    SimConfig {
        tick_period: 41_667,
        acceleration: 208,
        momentum_cap: 75_000,
        sleep_ticks: 25,
        wake_radius: 3,
    }
}

/// Where the render record of a cell at `p` is placed.
pub open spec fn placement(p: GridPos) -> Transform {
    Transform { translation: p, scale: GRID_SIZE }
}

/// `cells` with the kinds at `p1` and `p2` exchanged.
pub open spec fn kinds_swapped(cells: Map<GridPos, Cell>, p1: GridPos, p2: GridPos) -> Map<GridPos, Cell> {
    cells.insert(p1, Cell { kind: cells[p2].kind, ..cells[p1] }).insert(
        p2,
        Cell { kind: cells[p1].kind, ..cells[p2] },
    )
}

/// A record with colour `c`.
pub open spec fn recoloured(d: InstanceData, c: Rgba) -> InstanceData {
    InstanceData { color: c, ..d }
}

/// A record moved to the cell at `p`.
pub open spec fn placed_at(d: InstanceData, p: GridPos) -> InstanceData {
    InstanceData { transform: placement(p), ..d }
}

/// Whether `q` is within Chebyshev distance `r` of `p`.
pub open spec fn within(p: GridPos, q: GridPos, r: int) -> bool {
    -r <= q.0 - p.0 <= r && -r <= q.1 - p.1 <= r
}

proof fn lemma_push_fresh(a: Seq<GridPos>, x: GridPos)
    requires
        a.no_duplicates(),
        !a.contains(x),
    ensures
        a.push(x).no_duplicates(),
        forall|y: GridPos| #[trigger] a.push(x).contains(y) <==> (a.contains(y) || y == x),
{
    let b = a.push(x);
    assert forall|y: GridPos| #[trigger] b.contains(y) <==> (a.contains(y) || y == x) by {
        if b.contains(y) {
            let j = choose|j: int| 0 <= j < b.len() && b[j] == y;
            if j < a.len() {
                assert(a[j] == y);
            }
        }
        if a.contains(y) {
            let j = choose|j: int| 0 <= j < a.len() && a[j] == y;
            assert(b[j] == y);
        }
        if y == x {
            assert(b[a.len() as int] == y);
        }
    }
    assert forall|i: int, j: int| 0 <= i < b.len() && 0 <= j < b.len() && i != j implies b[i] != b[j] by {
        if i == a.len() {
            assert(a[j] == b[j]);
        } else if j == a.len() {
            assert(a[i] == b[i]);
        }
    }
}

/// `a + b`, saturating at `u64::MAX`.
pub open spec fn saturating_sum(a: u64, b: u64) -> u64 {
    if a + b > u64::MAX { u64::MAX } else { (a + b) as u64 }
}

/// Whether a momentum is past the ejection cap.
pub open spec fn beyond_cap(momentum: i64, cap: i64) -> bool {
    momentum > cap || momentum < -cap
}

/// No kind reacts with its own kind.
proof fn lemma_no_self_trigger(k: CellKind)
    ensures
        !crate::cell::triggers(k, k),
{
    reveal_with_fuel(find_transition, 2);
    assert(transitions_spec(k).len() <= 1);
    if transitions_spec(k).len() == 1 {
        assert(transitions_spec(k).drop_first() =~= Seq::<crate::cell::CellTransition>::empty());
    }
}

/// A slot index after slot `k` was freed.
pub open spec fn shifted(j: usize, k: usize) -> usize {
    if j > k { (j - 1) as usize } else { j }
}

/// The cell after slot `k` was freed.
pub open spec fn shift_cell(c: Cell, k: usize) -> Cell {
    Cell { idx: shifted(c.idx, k), ..c }
}

/// The cell woken, with `ticks` stalled ticks before it sleeps again.
pub open spec fn woken(c: Cell, ticks: u32) -> Cell {
    Cell { sleeping: false, sleep_counter: ticks, ..c }
}

/// `f` is `o` unchanged, or `o` was asleep and has been woken.
pub open spec fn kept_or_woken(f: Cell, o: Cell, ticks: u32) -> bool {
    f == o || (o.sleeping && f == woken(o, ticks))
}

/// The cell after slot `k` was freed, when `freed`.
pub open spec fn shift_if(c: Cell, freed: bool, k: usize) -> Cell {
    if freed { shift_cell(c, k) } else { c }
}

proof fn lemma_kept_or_woken_trans(f: Cell, m: Cell, o: Cell, t: u32)
    requires
        kept_or_woken(f, m, t),
        kept_or_woken(m, o, t),
    ensures
        kept_or_woken(f, o, t),
{
}

/// Two states of one cell that differ at most in their sleep state.
pub open spec fn same_but_sleep(a: Cell, b: Cell) -> bool {
    a.kind == b.kind && a.idx == b.idx && a.momentum == b.momentum
}

pub struct Sandbox {
    grid: CellGrid,
    active_cells: Vec<GridPos>,
    mesh_instance: Instance,
    time_since_last_update: u64,
    config: SimConfig,
    rng: StdRng,
    /// The position that owns each slot.
    owners: Ghost<Seq<GridPos>>,
}

impl Sandbox {
    /// The live cells by position.
    pub closed spec fn cells(&self) -> Map<GridPos, Cell> {
        grid_cells(self.grid)
    }

    /// The render records; slot `i` is `instances()[i]`.
    pub closed spec fn instances(&self) -> Seq<InstanceData> {
        self.mesh_instance@
    }

    pub closed spec fn store(&self) -> Instance {
        self.mesh_instance
    }

    /// The cells that update on the next tick, in scan order.
    pub closed spec fn active(&self) -> Seq<GridPos> {
        self.active_cells@
    }

    pub closed spec fn config_spec(&self) -> SimConfig {
        self.config
    }

    pub closed spec fn elapsed(&self) -> u64 {
        self.time_since_last_update
    }

    pub closed spec fn owners(&self) -> Seq<GridPos> {
        self.owners@
    }

    /// Slots and cells correspond one to one: slot `i` belongs to the cell at
    /// `owners()[i]`, whose `idx` is `i`, and its record sits at that cell.
    pub open spec fn slots_wf(&self) -> bool {
        let cells = self.cells();
        let inst = self.instances();
        let own = self.owners();
        &&& own.len() == inst.len()
        &&& forall|i: int|
            0 <= i < own.len() ==> cells.contains_key(#[trigger] own[i]) && cells[own[i]].idx == i
        &&& forall|p: GridPos| #[trigger]
            cells.contains_key(p) ==> cells[p].idx < inst.len() && own[cells[p].idx as int] == p
                && inst[cells[p].idx as int].transform == placement(p) && palette_spec(
                cells[p].kind,
            ).contains(inst[cells[p].idx as int].color) && -MOMENTUM_BOUND <= cells[p].momentum
                <= MOMENTUM_BOUND
    }

    /// The active list holds each awake cell exactly once, and nothing else.
    pub open spec fn active_wf(&self) -> bool {
        let cells = self.cells();
        let act = self.active();
        &&& act.no_duplicates()
        &&& forall|i: int|
            0 <= i < act.len() ==> cells.contains_key(#[trigger] act[i]) && !cells[act[i]].sleeping
        &&& forall|p: GridPos|
            cells.contains_key(p) && !cells[p].sleeping ==> #[trigger] act.contains(p)
    }

    pub open spec fn wf(&self) -> bool {
        &&& self.config_spec().wf()
        &&& self.store().wf()
        &&& self.elapsed() < self.config_spec().tick_period
        &&& self.slots_wf()
        &&& self.active_wf()
    }

    /// An empty sandbox over `mesh_instance`, with the default configuration
    /// and a random source seeded with `seed`.
    pub fn new(mesh_instance: Instance, seed: u64) -> (s: Sandbox)
        requires
            mesh_instance@.len() == 0,
            mesh_instance.wf(),
        ensures
            s.wf(),
            s.cells() == Map::<GridPos, Cell>::empty(),
            s.config_spec() == default_config(),
    {
        Self::with_config(mesh_instance, SimConfig::default(), seed)
    }

    /// An empty sandbox with the given configuration.
    pub fn with_config(mesh_instance: Instance, config: SimConfig, seed: u64) -> (s: Sandbox)
        requires
            mesh_instance@.len() == 0,
            mesh_instance.wf(),
            config.wf(),
        ensures
            s.wf(),
            s.cells() == Map::<GridPos, Cell>::empty(),
            s.instances() == mesh_instance@,
            s.config_spec() == config,
            s.active().len() == 0,
    {
        let s = Sandbox {
            grid: CellGrid::new(),
            active_cells: Vec::new(),
            mesh_instance,
            time_since_last_update: 0,
            config,
            rng: seeded_rng(seed),
            owners: Ghost(Seq::empty()),
        };
        assert(s.owners().len() == s.instances().len());
        s
    }

    pub fn config(&self) -> (c: SimConfig)
        ensures
            c == self.config_spec(),
    {
        self.config
    }

    /// The render slot store.
    pub fn mesh_instance(&self) -> (r: &Instance)
        ensures
            *r == self.store(),
    {
        &self.mesh_instance
    }

    /// The grid, for reading.
    pub fn grid(&self) -> (r: &CellGrid)
        ensures
            grid_cells(*r) == self.cells(),
    {
        &self.grid
    }

    pub fn get_cell(&self, pos: GridPos) -> (r: Option<Cell>)
        ensures
            r == (if self.cells().contains_key(pos) {
                Some(self.cells()[pos])
            } else {
                None
            }),
    {
        self.grid.get(&pos)
    }

    pub fn occupied(&self, pos: &GridPos) -> (r: bool)
        ensures
            r == self.cells().contains_key(*pos),
    {
        self.grid.get(pos).is_some()
    }

    /// The cells that update on the next tick, in scan order.
    pub fn active_cells(&self) -> (r: Vec<GridPos>)
        ensures
            r@ == self.active(),
    {
        let mut r: Vec<GridPos> = Vec::new();
        let mut i: usize = 0;
        while i < self.active_cells.len()
            invariant
                i <= self.active_cells@.len(),
                r@ == self.active_cells@.subrange(0, i as int),
            decreases self.active_cells@.len() - i,
        {
            r.push(self.active_cells[i]);
            i += 1;
            assert(r@ =~= self.active_cells@.subrange(0, i as int));
        }
        assert(r@ =~= self.active_cells@);
        r
    }

    /// Takes `pos` out of the active list.
    fn drop_active(&mut self, pos: GridPos)
        requires
            old(self).active().no_duplicates(),
        ensures
            final(self).active().no_duplicates(),
            forall|x: GridPos| #[trigger]
                final(self).active().contains(x) <==> (old(self).active().contains(x) && x != pos),
            forall|i: int|
                0 <= i < final(self).active().len() ==> old(self).active().contains(
                    #[trigger] final(self).active()[i],
                ),
            final(self).cells() == old(self).cells(),
            final(self).instances() == old(self).instances(),
            final(self).store() == old(self).store(),
            final(self).owners() == old(self).owners(),
            final(self).config_spec() == old(self).config_spec(),
            final(self).elapsed() == old(self).elapsed(),
    {
        let mut i: usize = 0;
        while i < self.active_cells.len()
            invariant
                *self == *old(self),
                self.active_cells@.no_duplicates(),
                i <= self.active_cells@.len(),
                forall|j: int| 0 <= j < i ==> self.active_cells@[j] != pos,
            decreases self.active_cells@.len() - i,
        {
            if same_pos(self.active_cells[i], pos) {
                let ghost a = self.active_cells@;
                self.active_cells.remove(i);
                let ghost b = self.active_cells@;
                assert(b =~= a.remove(i as int));
                assert forall|x: GridPos| #[trigger] b.contains(x) <==> (a.contains(x) && x != pos) by {
                    if b.contains(x) {
                        let k = choose|k: int| 0 <= k < b.len() && b[k] == x;
                        if k < i {
                            assert(a[k] == x);
                            assert(a[k] != a[i as int]);
                        } else {
                            assert(a[k + 1] == x);
                            assert(a[k + 1] != a[i as int]);
                        }
                    }
                    if a.contains(x) && x != pos {
                        let k = choose|k: int| 0 <= k < a.len() && a[k] == x;
                        if k < i {
                            assert(b[k] == x);
                        } else {
                            assert(k != i);
                            assert(b[k - 1] == x);
                        }
                    }
                }
                assert forall|j: int, k: int| 0 <= j < b.len() && 0 <= k < b.len() && j != k implies b[j]
                    != b[k] by {
                    let ja = if j < i { j } else { j + 1 };
                    let ka = if k < i { k } else { k + 1 };
                    assert(a[ja] == b[j] && a[ka] == b[k]);
                }
                assert forall|k: int| 0 <= k < b.len() implies a.contains(#[trigger] b[k]) by {
                    if k < i {
                        assert(a[k] == b[k]);
                    } else {
                        assert(a[k + 1] == b[k]);
                    }
                }
                return;
            }
            i += 1;
        }
    }

    /// Wakes the cell at `q`, if any, and schedules it.
    fn wake_cell(&mut self, q: GridPos)
        requires
            old(self).wf(),
        ensures
            final(self).wf(),
            final(self).cells() == (if old(self).cells().contains_key(q) {
                old(self).cells().insert(
                    q,
                    Cell { sleeping: false, sleep_counter: old(self).config_spec().sleep_ticks, ..old(self).cells()[q] },
                )
            } else {
                old(self).cells()
            }),
            final(self).instances() == old(self).instances(),
            final(self).store() == old(self).store(),
            final(self).config_spec() == old(self).config_spec(),
            final(self).elapsed() == old(self).elapsed(),
    {
        if let Some(mut c) = self.grid.get(&q) {
            let was_sleeping = c.sleeping;
            c.wake(self.config.sleep_ticks);
            self.grid.insert(q, c);
            if was_sleeping {
                proof {
                    assert(!self.active_cells@.contains(q));
                }
                self.active_cells.push(q);
                proof {
                    assert(self.active_cells@[self.active_cells@.len() - 1] == q);
                    assert(self.active_cells@.contains(q));
                    assert forall|x: GridPos|
                        old(self).active_cells@.contains(x) implies #[trigger] self.active_cells@.contains(x) by {
                        let k = choose|k: int| 0 <= k < old(self).active_cells@.len() && old(self).active_cells@[k] == x;
                        assert(self.active_cells@[k] == x);
                    }
                }
            }
        }
    }

    /// Plants a cell of `kind` at `pos` with a fresh render slot; nothing
    /// happens when `pos` is taken.
    pub fn insert_cell(&mut self, pos: GridPos, cell_kind: CellKind)
        requires
            old(self).wf(),
            !old(self).cells().contains_key(pos) ==> old(self).instances().len() < usize::MAX,
        ensures
            final(self).wf(),
            old(self).cells().contains_key(pos) ==> *final(self) == *old(self),
            !old(self).cells().contains_key(pos) ==> {
                &&& final(self).cells() == old(self).cells().insert(
                    pos,
                    Cell {
                        kind: cell_kind,
                        idx: old(self).instances().len() as usize,
                        momentum: 0,
                        sleep_counter: old(self).config_spec().sleep_ticks,
                        sleeping: false,
                    },
                )
                &&& final(self).instances().len() == old(self).instances().len() + 1
                &&& final(self).instances().subrange(0, old(self).instances().len() as int)
                    == old(self).instances()
                &&& final(self).active() == old(self).active().push(pos)
            },
            final(self).config_spec() == old(self).config_spec(),
    {
        if self.grid.get(&pos).is_some() {
            return;
        }
        let idx = self.mesh_instance.instance_count();
        let color = cell_kind.color(&mut self.rng);
        let transform = Transform::from_translation(pos).with_scale(GRID_SIZE);
        self.mesh_instance.add_instance(InstanceData::new(transform, &color));
        let mut cell = Cell::new(cell_kind, idx);
        cell.wake(self.config.sleep_ticks);
        self.grid.insert(pos, cell);
        self.active_cells.push(pos);
        self.owners = Ghost(self.owners@.push(pos));
        proof {
            let act = self.active_cells@;
            let old_act = old(self).active_cells@;
            assert(act.last() == pos);
            assert forall|x: GridPos| x == pos || old_act.contains(x) implies #[trigger] act.contains(x) by {
                if x == pos {
                    assert(act[act.len() - 1] == pos);
                } else {
                    let k = choose|k: int| 0 <= k < old_act.len() && old_act[k] == x;
                    assert(act[k] == x);
                }
            }
            assert(self.instances().subrange(0, old(self).instances().len() as int) =~= old(self).instances());
        }
    }

    /// Wakes every sleeping cell within the wake radius of `center`, other
    /// than one at `center` itself.
    fn wake_neighbours(&mut self, center: GridPos)
        requires
            old(self).wf(),
        ensures
            final(self).wf(),
            forall|q: GridPos| #[trigger]
                final(self).cells().contains_key(q) <==> old(self).cells().contains_key(q),
            forall|q: GridPos| #[trigger]
                old(self).cells().contains_key(q) ==> same_but_sleep(final(self).cells()[q], old(self).cells()[q]),
            forall|q: GridPos|
                #[trigger] old(self).cells().contains_key(q) && q != center && within(
                    center,
                    q,
                    old(self).config_spec().wake_radius as int,
                ) ==> !final(self).cells()[q].sleeping,
            forall|q: GridPos|
                #[trigger] old(self).cells().contains_key(q) && !within(
                    center,
                    q,
                    old(self).config_spec().wake_radius as int,
                ) ==> final(self).cells()[q] == old(self).cells()[q],
            forall|q: GridPos|
                #[trigger] old(self).cells().contains_key(q) && q == center ==> final(self).cells()[q]
                    == old(self).cells()[q],
            final(self).instances() == old(self).instances(),
            final(self).store() == old(self).store(),
            final(self).owners() == old(self).owners(),
            final(self).config_spec() == old(self).config_spec(),
            final(self).elapsed() == old(self).elapsed(),
            forall|q: GridPos| #[trigger]
                old(self).cells().contains_key(q) ==> kept_or_woken(
                    final(self).cells()[q],
                    old(self).cells()[q],
                    old(self).config_spec().sleep_ticks,
                ),
            forall|q: GridPos|
                #[trigger] old(self).cells().contains_key(q) && !old(self).cells()[q].sleeping
                    ==> !final(self).cells()[q].sleeping,
    {
        let r = self.config.wake_radius;
        let ghost c0 = self.cells();
        let ghost rr = r as int;
        let mut dx: isize = -r;
        while dx <= r
            invariant
                self.wf(),
                self.config_spec() == old(self).config_spec(),
                self.instances() == old(self).instances(),
                self.store() == old(self).store(),
                self.owners() == old(self).owners(),
                self.elapsed() == old(self).elapsed(),
                c0 == old(self).cells(),
                r == self.config_spec().wake_radius,
                rr == r as int,
                0 <= r < isize::MAX,
                -r <= dx <= r + 1,
                forall|q: GridPos| #[trigger] self.cells().contains_key(q) <==> c0.contains_key(q),
                forall|q: GridPos| #[trigger] c0.contains_key(q) ==> same_but_sleep(self.cells()[q], c0[q]),
                forall|q: GridPos| #[trigger] c0.contains_key(q) && !c0[q].sleeping ==> !self.cells()[q].sleeping,
                forall|q: GridPos| #[trigger] c0.contains_key(q) ==> kept_or_woken(self.cells()[q], c0[q], self.config_spec().sleep_ticks),
                forall|q: GridPos|
                    #[trigger] c0.contains_key(q) && q != center && within(center, q, rr) && q.0 - center.0
                        < dx ==> !self.cells()[q].sleeping,
                forall|q: GridPos|
                    #[trigger] c0.contains_key(q) && (!within(center, q, rr) || q == center) ==> self.cells()[q]
                        == c0[q],
            decreases r + 1 - dx,
        {
            let mut dy: isize = -r;
            while dy <= r
                invariant
                    self.wf(),
                    self.config_spec() == old(self).config_spec(),
                    self.instances() == old(self).instances(),
                    self.store() == old(self).store(),
                    self.owners() == old(self).owners(),
                    self.elapsed() == old(self).elapsed(),
                    c0 == old(self).cells(),
                    r == self.config_spec().wake_radius,
                    rr == r as int,
                    0 <= r < isize::MAX,
                    -r <= dx <= r,
                    -r <= dy <= r + 1,
                    forall|q: GridPos| #[trigger] self.cells().contains_key(q) <==> c0.contains_key(q),
                    forall|q: GridPos| #[trigger] c0.contains_key(q) ==> same_but_sleep(self.cells()[q], c0[q]),
                    forall|q: GridPos| #[trigger] c0.contains_key(q) && !c0[q].sleeping ==> !self.cells()[q].sleeping,
                    forall|q: GridPos| #[trigger] c0.contains_key(q) ==> kept_or_woken(self.cells()[q], c0[q], self.config_spec().sleep_ticks),
                    forall|q: GridPos|
                        #[trigger] c0.contains_key(q) && q != center && within(center, q, rr) && (q.0 - center.0
                            < dx || (q.0 - center.0 == dx && q.1 - center.1 < dy)) ==> !self.cells()[q].sleeping,
                    forall|q: GridPos|
                        #[trigger] c0.contains_key(q) && (!within(center, q, rr) || q == center) ==> self.cells()[q]
                            == c0[q],
                decreases r + 1 - dy,
            {
                if dx != 0 || dy != 0 {
                    if let Some(q) = checked_offset(center, (dx, dy)) {
                        if let Some(c) = self.grid.get(&q) {
                            if c.sleeping {
                                self.wake_cell(q);
                            }
                        }
                    }
                }
                dy += 1;
            }
            dx += 1;
        }
    }

    /// Removes the cell at `pos` and frees its slot. Every surviving cell
    /// whose slot was above the freed one moves down by one slot, with its
    /// record; then the sleeping neighbours within the wake radius wake up.
    pub fn remove_cell(&mut self, pos: GridPos) -> (r: Option<Cell>)
        requires
            old(self).wf(),
        ensures
            final(self).wf(),
            r == (if old(self).cells().contains_key(pos) {
                Some(old(self).cells()[pos])
            } else {
                None
            }),
            !old(self).cells().contains_key(pos) ==> *final(self) == *old(self),
            old(self).cells().contains_key(pos) ==> {
                let k = old(self).cells()[pos].idx;
                &&& forall|q: GridPos| #[trigger]
                    final(self).cells().contains_key(q) <==> (old(self).cells().contains_key(q) && q != pos)
                &&& final(self).instances() == old(self).instances().remove(k as int)
                &&& forall|q: GridPos| #[trigger]
                    final(self).cells().contains_key(q) ==> final(self).cells()[q].idx == shifted(
                        old(self).cells()[q].idx,
                        k,
                    ) && final(self).cells()[q].kind == old(self).cells()[q].kind
                        && final(self).cells()[q].momentum == old(self).cells()[q].momentum
                        && final(self).instances()[final(self).cells()[q].idx as int]
                        == old(self).instances()[old(self).cells()[q].idx as int]
                &&& forall|q: GridPos|
                    #[trigger] final(self).cells().contains_key(q) && within(
                        pos,
                        q,
                        old(self).config_spec().wake_radius as int,
                    ) ==> !final(self).cells()[q].sleeping
                &&& forall|q: GridPos|
                    #[trigger] final(self).cells().contains_key(q) && !within(
                        pos,
                        q,
                        old(self).config_spec().wake_radius as int,
                    ) ==> final(self).cells()[q].sleeping == old(self).cells()[q].sleeping
                &&& forall|q: GridPos| #[trigger]
                    final(self).cells().contains_key(q) ==> kept_or_woken(
                        final(self).cells()[q],
                        shift_cell(old(self).cells()[q], k),
                        old(self).config_spec().sleep_ticks,
                    )
            },
            final(self).config_spec() == old(self).config_spec(),
            final(self).elapsed() == old(self).elapsed(),
    {
        let cell = match self.grid.get(&pos) {
            None => {
                return None;
            },
            Some(c) => c,
        };
        self.grid.remove(&pos);
        let k = cell.idx;
        let ghost old_cells = old(self).cells();
        let ghost old_inst = old(self).instances();
        let ghost old_own = old(self).owners();
        let ghost c0 = self.cells();
        proof {
            assert forall|q: GridPos| #[trigger] c0.contains_key(q) implies old_cells[q].idx != k by {
                assert(old_own[old_cells[q].idx as int] == q);
                assert(old_own[k as int] == pos);
            }
        }
        self.drop_active(pos);
        let ghost act1 = self.active();
        self.mesh_instance.remove_instance(k);
        self.owners = Ghost(self.owners@.remove(k as int));
        let keys = self.grid.keys();
        let mut i: usize = 0;
        while i < keys.len()
            invariant
                i <= keys@.len(),
                keys@.no_duplicates(),
                forall|p: GridPos| keys@.contains(p) <==> c0.contains_key(p),
                c0 == old_cells.remove(pos),
                forall|p: GridPos| #[trigger] self.cells().contains_key(p) <==> c0.contains_key(p),
                forall|p: GridPos|
                    #[trigger] c0.contains_key(p) ==> self.cells()[p] == (if keys@.subrange(0, i as int).contains(p) {
                        shift_cell(c0[p], k)
                    } else {
                        c0[p]
                    }),
                self.active() == act1,
                forall|j: int| 0 <= j < act1.len() ==> old(self).active().contains(#[trigger] act1[j]),
                act1.no_duplicates(),
                forall|x: GridPos| #[trigger] act1.contains(x) <==> (old(self).active().contains(x) && x != pos),
                self.instances() == old_inst.remove(k as int),
                self.owners() == old_own.remove(k as int),
                self.store().wf(),
                self.config_spec() == old(self).config_spec(),
                self.elapsed() == old(self).elapsed(),
            decreases keys@.len() - i,
        {
            let key = keys[i];
            let ghost before = self.cells();
            if let Some(mut c) = self.grid.get(&key) {
                if c.idx > k {
                    c.idx = c.idx - 1;
                    self.grid.insert(key, c);
                }
            }
            proof {
                let s0 = keys@.subrange(0, i as int);
                let s1 = keys@.subrange(0, i + 1);
                assert forall|p: GridPos| #[trigger] c0.contains_key(p) implies self.cells()[p] == (if s1.contains(p) {
                    shift_cell(c0[p], k)
                } else {
                    c0[p]
                }) by {
                    if p == key {
                        assert(s1[i as int] == p);
                        if s0.contains(p) {
                            let j = choose|j: int| 0 <= j < s0.len() && s0[j] == p;
                            assert(keys@[j] == keys@[i as int]);
                        }
                    } else {
                        if s1.contains(p) {
                            let j = choose|j: int| 0 <= j < s1.len() && s1[j] == p;
                            assert(j != i);
                            assert(s0[j] == p);
                        }
                        if s0.contains(p) {
                            let j = choose|j: int| 0 <= j < s0.len() && s0[j] == p;
                            assert(s1[j] == p);
                        }
                    }
                }
            }
            i += 1;
        }
        proof {
            let cells = self.cells();
            assert(keys@.subrange(0, keys@.len() as int) =~= keys@);
            assert forall|p: GridPos| #[trigger] c0.contains_key(p) implies cells[p] == shift_cell(c0[p], k) by {
                assert(keys@.contains(p));
            }
            let own = self.owners();
            let inst = self.instances();
            assert forall|j: int| 0 <= j < own.len() implies cells.contains_key(#[trigger] own[j]) && cells[own[j]].idx == j by {
                let jo = if j < k { j } else { j + 1 };
                assert(own[j] == old_own[jo]);
                assert(old_cells[old_own[jo]].idx == jo);
                assert(old_own[jo] != pos);
                assert(c0.contains_key(old_own[jo]));
            }
            assert forall|p: GridPos| #[trigger] cells.contains_key(p) implies cells[p].idx < inst.len() && own[cells[p].idx as int] == p
                && inst[cells[p].idx as int].transform == placement(p) && palette_spec(cells[p].kind).contains(
                inst[cells[p].idx as int].color,
            ) && -MOMENTUM_BOUND <= cells[p].momentum <= MOMENTUM_BOUND by {
                let j = old_cells[p].idx as int;
                assert(j != k);
                assert(old_own[j] == p);
                let jn = cells[p].idx as int;
                assert(jn == shifted(old_cells[p].idx, k));
                assert(own[jn] == old_own[j]);
                assert(inst[jn] == old_inst[j]);
            }
            assert forall|i: int| 0 <= i < self.active().len() implies cells.contains_key(#[trigger] self.active()[i])
                && !cells[self.active()[i]].sleeping by {
                let x = self.active()[i];
                assert(act1[i] == x);
                assert(act1.contains(x));
                assert(old(self).active().contains(x) && x != pos);
                let j = choose|j: int| 0 <= j < old(self).active().len() && old(self).active()[j] == x;
                assert(old_cells.contains_key(old(self).active()[j]));
                assert(c0.contains_key(x));
                assert(cells[x] == shift_cell(c0[x], k));
            }
        }
        self.wake_neighbours(pos);
        proof {
            assert(self.instances() =~= old(self).instances().remove(k as int));
        }
        Some(cell)
    }

    /// Rewrites the kind of the cell at `pos` and recolours its record from
    /// the new kind's palette; nothing happens when `pos` is empty.
    pub fn change_cell_kind(&mut self, pos: GridPos, new_kind: CellKind)
        requires
            old(self).wf(),
        ensures
            final(self).wf(),
            !old(self).cells().contains_key(pos) ==> *final(self) == *old(self),
            old(self).cells().contains_key(pos) ==> final(self).cells() == old(self).cells().insert(
                pos,
                Cell { kind: new_kind, ..old(self).cells()[pos] },
            ),
            old(self).cells().contains_key(pos) ==> final(self).instances() == old(self).instances().update(
                old(self).cells()[pos].idx as int,
                recoloured(
                    old(self).instances()[old(self).cells()[pos].idx as int],
                    final(self).instances()[old(self).cells()[pos].idx as int].color,
                ),
            ) && palette_spec(new_kind).contains(
                final(self).instances()[old(self).cells()[pos].idx as int].color,
            ),
            final(self).active() == old(self).active(),
            final(self).config_spec() == old(self).config_spec(),
            final(self).elapsed() == old(self).elapsed(),
    {
        if let Some(mut cell) = self.grid.get(&pos) {
            cell.kind = new_kind;
            let color = new_kind.color(&mut self.rng);
            self.mesh_instance.update_instance_color(cell.idx, &color);
            self.grid.insert(pos, cell);
        }
    }

    /// Exchanges the kinds (and so the colours) of two cells; their slots stay.
    /// Nothing happens unless both positions are occupied.
    pub fn swap_cells(&mut self, pos1: &GridPos, pos2: GridPos)
        requires
            old(self).wf(),
        ensures
            final(self).wf(),
            !(old(self).cells().contains_key(*pos1) && old(self).cells().contains_key(pos2))
                ==> *final(self) == *old(self),
            (old(self).cells().contains_key(*pos1) && old(self).cells().contains_key(pos2))
                ==> final(self).cells() == kinds_swapped(old(self).cells(), *pos1, pos2),
            (old(self).cells().contains_key(*pos1) && old(self).cells().contains_key(pos2)) ==> ({
                let i1 = old(self).cells()[*pos1].idx as int;
                let i2 = old(self).cells()[pos2].idx as int;
                let f = final(self).instances();
                &&& f == old(self).instances().update(i1, recoloured(old(self).instances()[i1], f[i1].color)).update(
                    i2,
                    recoloured(old(self).instances()[i2], f[i2].color),
                )
                &&& palette_spec(old(self).cells()[pos2].kind).contains(f[i1].color) || *pos1 == pos2
                &&& palette_spec(old(self).cells()[*pos1].kind).contains(f[i2].color)
            }),
            final(self).active() == old(self).active(),
            final(self).config_spec() == old(self).config_spec(),
            final(self).elapsed() == old(self).elapsed(),
    {
        let cell1 = self.grid.get(pos1);
        let cell2 = self.grid.get(&pos2);
        match (cell1, cell2) {
            (Some(c1), Some(c2)) => {
                self.change_cell_kind(*pos1, c2.kind);
                self.change_cell_kind(pos2, c1.kind);
            },
            _ => {},
        }
    }

    /// Moves the cell at `from` to the free position `to`: its slot stays and
    /// its record is placed at `to`; an awake cell stays in the active list (at its end).
    /// Sleeping cells within the wake radius of `from` wake up. Nothing
    /// happens when `from` is empty or `to` is taken.
    pub fn move_cell(&mut self, from: &GridPos, to: &GridPos)
        requires
            old(self).wf(),
        ensures
            final(self).wf(),
            !(old(self).cells().contains_key(*from) && !old(self).cells().contains_key(*to))
                ==> *final(self) == *old(self),
            (old(self).cells().contains_key(*from) && !old(self).cells().contains_key(*to)) ==> {
                &&& forall|q: GridPos| #[trigger]
                    final(self).cells().contains_key(q) <==> (q == *to || (old(self).cells().contains_key(q)
                        && q != *from))
                &&& same_but_sleep(final(self).cells()[*to], old(self).cells()[*from])
                &&& final(self).cells()[*to].sleeping == (old(self).cells()[*from].sleeping && !within(
                    *from,
                    *to,
                    old(self).config_spec().wake_radius as int,
                ))
                &&& forall|q: GridPos|
                    #[trigger] final(self).cells().contains_key(q) && q != *to && !within(
                        *from,
                        q,
                        old(self).config_spec().wake_radius as int,
                    ) ==> final(self).cells()[q].sleeping == old(self).cells()[q].sleeping
                &&& forall|q: GridPos|
                    #[trigger] final(self).cells().contains_key(q) && q != *to && !old(self).cells()[q].sleeping
                        ==> !final(self).cells()[q].sleeping
                &&& forall|q: GridPos|
                    #[trigger] final(self).cells().contains_key(q) && q != *to ==> kept_or_woken(
                        final(self).cells()[q],
                        old(self).cells()[q],
                        old(self).config_spec().sleep_ticks,
                    )
                &&& kept_or_woken(
                    final(self).cells()[*to],
                    old(self).cells()[*from],
                    old(self).config_spec().sleep_ticks,
                )
                &&& forall|q: GridPos|
                    #[trigger] final(self).cells().contains_key(q) && q != *to ==> same_but_sleep(
                        final(self).cells()[q],
                        old(self).cells()[q],
                    )
                &&& forall|q: GridPos|
                    #[trigger] final(self).cells().contains_key(q) && q != *from && within(
                        *from,
                        q,
                        old(self).config_spec().wake_radius as int,
                    ) ==> !final(self).cells()[q].sleeping
                &&& final(self).instances() == old(self).instances().update(
                    old(self).cells()[*from].idx as int,
                    placed_at(old(self).instances()[old(self).cells()[*from].idx as int], *to),
                )
            },
            final(self).config_spec() == old(self).config_spec(),
            final(self).elapsed() == old(self).elapsed(),
    {
        let cell = match self.grid.get(from) {
            None => {
                return;
            },
            Some(c) => c,
        };
        if self.grid.get(to).is_some() {
            return;
        }
        let ghost c_old = self.cells();
        let ghost own_old = self.owners();
        self.grid.remove(from);
        self.grid.insert(*to, cell);
        if !cell.sleeping {
            self.drop_active(*from);
            let ghost act1 = self.active();
            proof {
                assert(!act1.contains(*to));
            }
            self.active_cells.push(*to);
            proof {
                lemma_push_fresh(act1, *to);
            }
        }
        let transform = Transform::from_translation(*to).with_scale(GRID_SIZE);
        self.mesh_instance.update_instance_transform(cell.idx, transform);
        self.owners = Ghost(self.owners@.update(cell.idx as int, *to));
        proof {
            let cells = self.cells();
            let own = self.owners();
            let inst = self.instances();
            assert(cells =~= c_old.remove(*from).insert(*to, cell));
            assert forall|p: GridPos| #[trigger] c_old.contains_key(p) && p != *from implies c_old[p].idx != cell.idx by {
                assert(own_old[c_old[p].idx as int] == p);
            }
            assert forall|j: int| 0 <= j < own.len() implies cells.contains_key(#[trigger] own[j]) && cells[own[j]].idx == j by {
                if j != cell.idx {
                    assert(own[j] == own_old[j]);
                    assert(c_old[own_old[j]].idx == j);
                }
            }
            let act = self.active();
            assert forall|j: int| 0 <= j < act.len() implies cells.contains_key(#[trigger] act[j]) && !cells[act[j]].sleeping by {
                assert(act.contains(act[j]));
            }
        }
        let ghost mid = self.cells();
        self.wake_neighbours(*from);
        proof {
            assert(mid.contains_key(*to));
            assert(same_but_sleep(self.cells()[*to], c_old[*from]));
            assert(transform == placement(*to));
            assert(self.instances() =~= old(self).instances().update(
                c_old[*from].idx as int,
                placed_at(old(self).instances()[c_old[*from].idx as int], *to),
            ));
        }
    }

    fn set_momentum(&mut self, q: GridPos, momentum: i64)
        requires
            old(self).wf(),
            -MOMENTUM_BOUND <= momentum <= MOMENTUM_BOUND,
        ensures
            final(self).wf(),
            final(self).cells() == (if old(self).cells().contains_key(q) {
                old(self).cells().insert(q, Cell { momentum, ..old(self).cells()[q] })
            } else {
                old(self).cells()
            }),
            final(self).instances() == old(self).instances(),
            final(self).active() == old(self).active(),
            final(self).config_spec() == old(self).config_spec(),
            final(self).elapsed() == old(self).elapsed(),
    {
        if let Some(mut c) = self.grid.get(&q) {
            c.momentum = momentum;
            self.grid.insert(q, c);
        }
    }

    /// Runs the update of the cell at `pos`, if it is awake, and applies the
    /// outcome. A cell whose momentum magnitude exceeds the cap is ejected
    /// instead. A stalled cell spends one tick of its sleep counter and leaves
    /// the active list when it falls asleep. Otherwise the swap, transition or
    /// move is applied, the cell it ended on takes the new momentum, and both
    /// positions and their neighbours are woken.
    pub fn update_cell_at(&mut self, pos: GridPos) -> (r: Option<CellUpdate>)
        requires
            old(self).wf(),
        ensures
            final(self).wf(),
            cell_outcome(*old(self), pos, r, *final(self)),
    {
        let cell = match self.grid.get(&pos) {
            None => {
                return None;
            },
            Some(c) => c,
        };
        if cell.sleeping {
            return None;
        }
        let cap = self.config.momentum_cap;
        if cell.momentum > cap || cell.momentum < -cap {
            self.remove_cell(pos);
            proof {
                let o = old(self).cells();
                let f = self.cells();
                let rad = old(self).config_spec().wake_radius as int;
                assert forall|x: GridPos|
                    #[trigger] o.contains_key(x) && x != pos && !within(pos, x, rad) && !near_target(None, x, rad)
                        implies f.contains_key(x) && f[x].kind == o[x].kind && f[x].momentum == o[x].momentum
                        && f[x].sleeping == o[x].sleeping by {
                    assert(f.contains_key(x));
                }
                assert forall|x: GridPos| #[trigger] f.contains_key(x) implies o.contains_key(x) by {}
                assert(!f.contains_key(pos));
                assert(self.instances() == old(self).instances().remove(o[pos].idx as int));
                assert forall|x: GridPos| #[trigger] o.contains_key(x) && x != pos implies f.contains_key(x)
                    && kept_or_woken(f[x], shift_if(o[x], true, o[pos].idx), old(self).config_spec().sleep_ticks)
                    && self.instances()[f[x].idx as int] == old(self).instances()[o[x].idx as int] by {
                    assert(f.contains_key(x));
                }
            }
            return None;
        }
        let ghost c0 = self.cells();
        let u = cell.update(pos, &self.grid, self.config.acceleration, &mut self.rng);
        assert(self.cells() == c0);
        if !u.updated {
            let mut c = cell;
            assert(-MOMENTUM_BOUND <= u.new_momentum <= MOMENTUM_BOUND);
            c.momentum = u.new_momentum;
            c.sleep();
            self.grid.insert(pos, c);
            proof {
                let cells = self.cells();
                assert(cells == c0.insert(pos, c));
                assert forall|p: GridPos| #[trigger] cells.contains_key(p) implies c0.contains_key(p)
                    && cells[p].idx == c0[p].idx && cells[p].kind == c0[p].kind
                    && -MOMENTUM_BOUND <= cells[p].momentum <= MOMENTUM_BOUND by {}
                assert(self.slots_wf());
            }
            if c.sleeping {
                self.drop_active(pos);
            }
            proof {
                let cells = self.cells();
                let act = self.active();
                assert forall|i: int| 0 <= i < act.len() implies cells.contains_key(#[trigger] act[i])
                    && !cells[act[i]].sleeping by {
                    let x = act[i];
                    if c.sleeping {
                        assert(act.contains(x));
                        assert(x != pos);
                        assert(old(self).active().contains(x));
                        let j = choose|j: int| 0 <= j < old(self).active().len() && old(self).active()[j] == x;
                        assert(c0.contains_key(old(self).active()[j]));
                    } else {
                        assert(old(self).active()[i] == x);
                        assert(c0.contains_key(old(self).active()[i]));
                    }
                }
                assert forall|p: GridPos| cells.contains_key(p) && !cells[p].sleeping implies #[trigger] act.contains(p) by {
                    assert(old(self).active().contains(p));
                }
            }
            return Some(u);
        }
        let q = u.new_pos.unwrap();
        proof {
            lemma_no_self_trigger(cell.kind);
            lemma_slots_dense(old(self));
        }
        let ghost rad0 = old(self).config_spec().wake_radius as int;
        let ghost inst0 = old(self).instances();
        let ghost k0 = c0[pos].idx;
        let ghost ticks = old(self).config_spec().sleep_ticks;
        let ghost freed1: bool = match u.transition {
            Some(t) => t.remove,
            None => false,
        };
        if u.swapped {
            self.swap_cells(&pos, q);
            proof {
                let g = self.cells();
                assert forall|x: GridPos| #[trigger] c0.contains_key(x) && x != pos && x != q implies g.contains_key(x)
                    && g[x] == c0[x] by {}
                let gi2 = self.instances();
                assert forall|x: GridPos| #[trigger] c0.contains_key(x) && x != pos && x != q implies g.contains_key(x)
                    && kept_or_woken(g[x], shift_if(c0[x], freed1, k0), ticks) && gi2[g[x].idx as int]
                    == inst0[c0[x].idx as int] by {
                    assert(g[x] == c0[x]);
                    assert(c0[x].idx != c0[pos].idx);
                    assert(c0[x].idx != c0[q].idx);
                }
                assert(gi2.len() == inst0.len());
            }
        } else if let Some(t) = u.transition {
            assert(q != pos);
            match t.target {
                TransitionTarget::This => self.change_cell_kind(pos, t.result),
                TransitionTarget::Other => self.change_cell_kind(q, t.result),
            }
            let ghost m = self.cells();
            let ghost minst = self.instances();
            proof {
                assert forall|x: GridPos| #[trigger] c0.contains_key(x) && x != pos && x != q implies m.contains_key(x)
                    && m[x] == c0[x] && minst[c0[x].idx as int] == inst0[c0[x].idx as int] by {
                    assert(c0[x].idx != c0[pos].idx);
                    assert(c0[x].idx != c0[q].idx);
                }
                assert(minst.len() == inst0.len());
                assert(m[pos].idx == k0);
            }
            if t.remove {
                assert(m.contains_key(pos));
                self.remove_cell(pos);
                proof {
                    let g = self.cells();
                    assert forall|x: GridPos|
                        #[trigger] c0.contains_key(x) && x != pos && x != q && !within(pos, x, rad0) implies g.contains_key(x)
                            && g[x].kind == c0[x].kind && g[x].momentum == c0[x].momentum && g[x].sleeping
                            == c0[x].sleeping by {
                        assert(m.contains_key(x));
                        assert(g.contains_key(x));
                        assert(g[x].kind == m[x].kind && g[x].momentum == m[x].momentum);
                        assert(g[x].sleeping == m[x].sleeping);
                    }
                    let gi2 = self.instances();
                    assert forall|x: GridPos| #[trigger] c0.contains_key(x) && x != pos && x != q implies g.contains_key(x)
                        && kept_or_woken(g[x], shift_if(c0[x], freed1, k0), ticks) && gi2[g[x].idx as int]
                        == inst0[c0[x].idx as int] && (!within(pos, x, rad0) ==> g[x] == shift_if(c0[x], freed1, k0)) by {
                        assert(m.contains_key(x));
                        assert(g.contains_key(x));
                        assert(kept_or_woken(g[x], shift_cell(m[x], k0), ticks));
                    }
                    assert(gi2.len() == inst0.len() - 1);
                }
            }
        } else {
            assert(c0.contains_key(pos) && !c0.contains_key(q));
            self.move_cell(&pos, &q);
            proof {
                let g = self.cells();
                assert forall|x: GridPos|
                    #[trigger] c0.contains_key(x) && x != pos && x != q && !within(pos, x, rad0) implies g.contains_key(x)
                        && g[x].kind == c0[x].kind && g[x].momentum == c0[x].momentum && g[x].sleeping
                        == c0[x].sleeping by {
                    assert(g.contains_key(x));
                    assert(same_but_sleep(g[x], c0[x]));
                }
                let gi2 = self.instances();
                assert forall|x: GridPos| #[trigger] c0.contains_key(x) && x != pos && x != q implies g.contains_key(x)
                    && kept_or_woken(g[x], shift_if(c0[x], freed1, k0), ticks) && gi2[g[x].idx as int]
                    == inst0[c0[x].idx as int] && (!within(pos, x, rad0) ==> g[x] == shift_if(c0[x], freed1, k0)) by {
                    assert(g.contains_key(x));
                    assert(c0[x].idx != k0);
                }
                assert(gi2.len() == inst0.len());
            }
        }
        let ghost s1 = self.cells();
        let ghost inst1 = self.instances();
        proof {
            assert(inst1.len() == (if freed1 { inst0.len() - 1 } else { inst0.len() as int }));
            assert forall|x: GridPos| #[trigger] c0.contains_key(x) && x != pos && x != q implies s1.contains_key(x)
                && kept_or_woken(s1[x], shift_if(c0[x], freed1, k0), ticks) && inst1[s1[x].idx as int]
                == inst0[c0[x].idx as int] && (!within(pos, x, rad0) ==> s1[x] == shift_if(c0[x], freed1, k0)) by {
                if u.swapped {
                    assert(s1[x] == c0[x]);
                } else if u.transition.is_some() {
                    if !freed1 {
                        assert(s1[x] == c0[x]);
                    }
                }
            }
            if u.transition.is_some() {
                assert(s1.contains_key(pos) <==> !freed1);
            }
            if u.swapped {
                assert(q != pos);
                assert(s1.contains_key(q) && s1.contains_key(pos));
                assert(s1[pos].kind == c0[q].kind && s1[q].kind == c0[pos].kind);
            }
            if let Some(t) = u.transition {
                assert(s1.contains_key(q));
                assert(s1.contains_key(pos) <==> !t.remove);
                if t.target == TransitionTarget::Other {
                    assert(s1[q].kind == t.result);
                }
                if t.target == TransitionTarget::This && !t.remove {
                    assert(s1[pos].kind == t.result);
                }
            }
            if u.transition.is_none() && !u.swapped {
                assert(s1.contains_key(q));
                assert(!s1.contains_key(pos));
                assert(s1[q].kind == c0[pos].kind && s1[q].idx == c0[pos].idx);
            }
        }
        let ghost rad = old(self).config_spec().wake_radius as int;
        proof {
            assert(s1.contains_key(q));
            assert forall|x: GridPos| #[trigger] s1.contains_key(x) implies c0.contains_key(x) || x == q by {}
            assert forall|x: GridPos|
                #[trigger] c0.contains_key(x) && x != pos && x != q && !within(pos, x, rad) implies s1.contains_key(x)
                    && s1[x].kind == c0[x].kind && s1[x].momentum == c0[x].momentum && s1[x].sleeping
                    == c0[x].sleeping by {}
            assert forall|x: GridPos|
                #[trigger] s1.contains_key(x) && !s1.contains_key(pos) && within(pos, x, rad) && x != q implies !s1[x].sleeping by {}
        }
        if self.grid.get(&q).is_some() {
            self.set_momentum(q, u.new_momentum);
            let ghost s2 = self.cells();
            self.wake_cell(q);
            let ghost s3 = self.cells();
            self.wake_neighbours(q);
            proof {
                let g = self.cells();
                assert forall|x: GridPos| #[trigger] g.contains_key(x) && x != q implies kept_or_woken(g[x], s1[x], ticks)
                    && (!within(q, x, rad) ==> g[x] == s1[x]) by {
                    assert(s3.contains_key(x));
                    assert(s2.contains_key(x));
                    assert(s3[x] == s1[x]);
                }
                assert(self.instances() == inst1);
                assert forall|x: GridPos| #[trigger] g.contains_key(x) && x != q implies g[x].kind == s1[x].kind
                    && g[x].momentum == s1[x].momentum && (!s1[x].sleeping ==> !g[x].sleeping) && (!within(q, x, rad)
                    ==> g[x].sleeping == s1[x].sleeping) by {
                    assert(s3.contains_key(x));
                    assert(s2.contains_key(x));
                }
                assert forall|x: GridPos| #[trigger] g.contains_key(x) && within(q, x, rad) implies !g[x].sleeping by {
                    assert(s3.contains_key(x));
                }
                assert(s3.contains_key(q));
                assert(self.cells()[q] == s3[q]);
                assert(s3[q].kind == s1[q].kind && s3[q].idx == s1[q].idx && s3[q].momentum == u.new_momentum);
                assert forall|p: GridPos| #[trigger] self.cells().contains_key(p) implies s1.contains_key(p)
                    && self.cells()[p].kind == s1[p].kind by {
                    assert(s3.contains_key(p));
                    assert(s2.contains_key(p));
                }
                assert forall|p: GridPos| s1.contains_key(p) implies #[trigger] self.cells().contains_key(p) by {
                    assert(s2.contains_key(p));
                    assert(s3.contains_key(p));
                }
            }
        }
        let ghost s4 = self.cells();
        proof {
            assert(self.instances() == inst1);
            assert forall|x: GridPos| #[trigger] s4.contains_key(x) && x != q implies kept_or_woken(s4[x], s1[x], ticks)
                && (!within(q, x, rad) ==> s4[x] == s1[x]) by {}
            assert forall|x: GridPos| #[trigger] s4.contains_key(x) && x != q implies s4[x].kind == s1[x].kind
                && s4[x].momentum == s1[x].momentum && (!s1[x].sleeping ==> !s4[x].sleeping) && (!within(q, x, rad)
                ==> s4[x].sleeping == s1[x].sleeping) by {}
            assert forall|x: GridPos| #[trigger] s4.contains_key(x) && within(q, x, rad) implies !s4[x].sleeping by {}
            assert forall|p: GridPos| #[trigger] s4.contains_key(p) <==> s1.contains_key(p) by {}
            assert forall|p: GridPos| #[trigger] s4.contains_key(p) implies s4[p].kind == s1[p].kind by {}
        }
        if self.grid.get(&pos).is_some() {
            self.wake_cell(pos);
            let ghost s5 = self.cells();
            self.wake_neighbours(pos);
            proof {
                let g = self.cells();
                assert forall|x: GridPos| #[trigger] g.contains_key(x) && x != pos implies kept_or_woken(g[x], s4[x], ticks)
                    && (!within(pos, x, rad) ==> g[x] == s4[x]) by {
                    assert(s5.contains_key(x));
                    assert(s5[x] == s4[x]);
                }
                assert forall|x: GridPos| #[trigger] g.contains_key(x) && x != pos implies g[x].momentum == s4[x].momentum
                    && (!s4[x].sleeping ==> !g[x].sleeping) && (!within(pos, x, rad) ==> g[x].sleeping == s4[x].sleeping) by {
                    assert(s5.contains_key(x));
                }
                assert forall|x: GridPos| #[trigger] g.contains_key(x) && within(pos, x, rad) implies !g[x].sleeping by {
                    assert(s5.contains_key(x));
                }
                assert forall|p: GridPos| #[trigger] self.cells().contains_key(p) implies s4.contains_key(p)
                    && self.cells()[p].kind == s4[p].kind by {
                    assert(s5.contains_key(p));
                }
                assert forall|p: GridPos| s4.contains_key(p) implies #[trigger] self.cells().contains_key(p) by {
                    assert(s5.contains_key(p));
                }
                if s4.contains_key(q) {
                    assert(s5.contains_key(q));
                    assert(self.cells()[q].momentum == s4[q].momentum);
                    assert(!self.cells()[q].sleeping || !s4[q].sleeping);
                }
            }
        }
        proof {
            let f = self.cells();
            assert forall|p: GridPos| #[trigger] f.contains_key(p) <==> s1.contains_key(p) by {
                assert(f.contains_key(p) <==> s4.contains_key(p));
            }
            assert forall|p: GridPos| #[trigger] f.contains_key(p) implies f[p].kind == s1[p].kind by {
                assert(s4.contains_key(p));
            }
            assert(c0 == old(self).cells());
            assert forall|x: GridPos| #[trigger] f.contains_key(x) && x != pos implies f[x].momentum == s4[x].momentum
                && (!s4[x].sleeping ==> !f[x].sleeping) && (!within(pos, x, rad) ==> f[x].sleeping == s4[x].sleeping) by {
                assert(s4.contains_key(x));
            }
            assert forall|x: GridPos| #[trigger] f.contains_key(x) && s4.contains_key(pos) && within(pos, x, rad)
                implies !f[x].sleeping by {}
            assert forall|x: GridPos| #[trigger] near_target(Some(u), x, rad) <==> within(q, x, rad) by {}
            assert forall|x: GridPos|
                #[trigger] f.contains_key(x) && (within(pos, x, rad) || near_target(Some(u), x, rad)) implies !f[x].sleeping by {
                assert(s4.contains_key(x));
                assert(s1.contains_key(x));
                if within(q, x, rad) {
                    assert(!s4[x].sleeping);
                } else if s4.contains_key(pos) {
                } else {
                    assert(x != q);
                    assert(!s1[x].sleeping);
                    assert(!s4[x].sleeping);
                }
            }
            assert forall|x: GridPos|
                #[trigger] c0.contains_key(x) && x != pos && !within(pos, x, rad) && !near_target(Some(u), x, rad)
                    implies f.contains_key(x) && f[x].kind == c0[x].kind && f[x].momentum == c0[x].momentum
                    && f[x].sleeping == c0[x].sleeping by {
                assert(!within(q, x, rad));
                assert(x != q);
                assert(s1.contains_key(x));
                assert(s1[x].kind == c0[x].kind && s1[x].momentum == c0[x].momentum && s1[x].sleeping == c0[x].sleeping);
                assert(s4.contains_key(x));
                assert(s4[x].kind == s1[x].kind && s4[x].momentum == s1[x].momentum && s4[x].sleeping == s1[x].sleeping);
                assert(f.contains_key(x));
                assert(f[x].kind == s1[x].kind && f[x].momentum == s4[x].momentum && f[x].sleeping == s4[x].sleeping);
            }
            assert forall|x: GridPos| #[trigger] f.contains_key(x) implies c0.contains_key(x) || x == q by {
                assert(s4.contains_key(x));
                assert(s1.contains_key(x));
            }
            assert(self.instances() == inst1);
            assert forall|x: GridPos| #[trigger] f.contains_key(x) && x != pos implies kept_or_woken(f[x], s4[x], ticks)
                && (!within(pos, x, rad) ==> f[x] == s4[x]) by {
                assert(s4.contains_key(x));
            }
            assert(f.contains_key(pos) <==> s1.contains_key(pos));
            assert forall|x: GridPos| #[trigger] c0.contains_key(x) && x != pos && Some(q) != Some(x) implies f.contains_key(x)
                && kept_or_woken(f[x], shift_if(c0[x], freed1, k0), ticks) && inst1[f[x].idx as int]
                == inst0[c0[x].idx as int] by {
                assert(s1.contains_key(x));
                assert(s4.contains_key(x));
                assert(f.contains_key(x));
                assert(kept_or_woken(s4[x], s1[x], ticks));
                assert(kept_or_woken(f[x], s4[x], ticks));
                lemma_kept_or_woken_trans(s4[x], s1[x], shift_if(c0[x], freed1, k0), ticks);
                lemma_kept_or_woken_trans(f[x], s4[x], shift_if(c0[x], freed1, k0), ticks);
            }
            assert forall|x: GridPos|
                #[trigger] c0.contains_key(x) && x != pos && !within(pos, x, rad) && !near_target(Some(u), x, rad)
                    implies f.contains_key(x) && f[x] == shift_if(c0[x], freed1, k0) by {
                assert(!within(q, x, rad));
                assert(s1.contains_key(x));
                assert(s4.contains_key(x));
            }
            if let Some(t) = u.transition {
                assert(f.contains_key(q));
                assert(f.contains_key(pos) <==> !t.remove);
                if t.target == TransitionTarget::Other {
                    assert(f[q].kind == t.result);
                }
                if t.target == TransitionTarget::This && !t.remove {
                    assert(f[pos].kind == t.result);
                }
            }
            if u.swapped {
                assert(f.contains_key(q) && f.contains_key(pos));
                assert(f[pos].kind == c0[q].kind);
                assert(f[q].kind == c0[pos].kind);
            }
        }
        Some(u)
    }

    /// One simulation tick: every cell of the active list, as it stood when the
    /// tick began, is updated once, in list order. With every cell asleep
    /// nothing changes.
    pub fn step(&mut self)
        requires
            old(self).wf(),
        ensures
            final(self).wf(),
            final(self).config_spec() == old(self).config_spec(),
            final(self).elapsed() == old(self).elapsed(),
            old(self).active().len() == 0 ==> *final(self) == *old(self),
            tick_spec(*old(self), *final(self)),
    {
        let keys = self.active_cells();
        let ghost mut st: Seq<Sandbox> = seq![*self];
        let mut i: usize = 0;
        while i < keys.len()
            invariant
                self.wf(),
                self.config_spec() == old(self).config_spec(),
                self.elapsed() == old(self).elapsed(),
                keys@ == old(self).active(),
                keys@.len() == 0 ==> *self == *old(self),
                i <= keys@.len(),
                st.len() == i + 1,
                st[0] == *old(self),
                st.last() == *self,
                forall|j: int| 0 <= j < i ==> #[trigger] cell_stepped(st[j], keys@[j], st[j + 1]),
            decreases keys@.len() - i,
        {
            let ghost before = *self;
            let r = self.update_cell_at(keys[i]);
            proof {
                let st2 = st.push(*self);
                assert(cell_outcome(st2[i as int], keys@[i as int], r, st2[i + 1]));
                assert(cell_stepped(st2[i as int], keys@[i as int], st2[i + 1]));
                assert forall|j: int| 0 <= j < i + 1 implies #[trigger] cell_stepped(st2[j], keys@[j], st2[j + 1]) by {
                    if j < i {
                        assert(st2[j] == st[j] && st2[j + 1] == st[j + 1]);
                    }
                }
                st = st2;
            }
            i += 1;
        }
        proof {
            assert(tick_trace(*old(self), st, *self));
        }
    }

    /// This state with the clock set to `t`.
    pub closed spec fn with_elapsed(self, t: u64) -> Sandbox {
        Sandbox { time_since_last_update: t, ..self }
    }

    /// Advances the clock by `dt` microseconds and runs one tick for each
    /// whole tick period accumulated; the remainder carries over. Returns the
    /// number of ticks run: the states between them are ticks in a row,
    /// starting from this state with its clock already advanced.
    pub fn update(&mut self, dt: u64) -> (ticks: u64)
        requires
            old(self).wf(),
        ensures
            final(self).wf(),
            final(self).config_spec() == old(self).config_spec(),
            ticks == saturating_sum(old(self).elapsed(), dt) / old(self).config_spec().tick_period,
            final(self).elapsed() == saturating_sum(old(self).elapsed(), dt)
                % old(self).config_spec().tick_period,
            exists|ts: Seq<Sandbox>|
                #[trigger] tick_chain(old(self).with_elapsed(final(self).elapsed()), ts, *final(self), ticks as nat),
            ticks == 0 ==> (final(self).cells() == old(self).cells() && final(self).instances()
                == old(self).instances() && final(self).active() == old(self).active()),
            old(self).active().len() == 0 ==> final(self).cells() == old(self).cells()
                && final(self).instances() == old(self).instances(),
    {
        let period = self.config.tick_period;
        let acc = self.time_since_last_update.saturating_add(dt);
        let n = acc / period;
        self.time_since_last_update = acc % period;
        let ghost start = *self;
        proof {
            assert(start == old(self).with_elapsed(acc % period));
        }
        let ghost mut ts: Seq<Sandbox> = seq![*self];
        let mut t: u64 = 0;
        while t < n
            invariant
                self.wf(),
                self.config_spec() == old(self).config_spec(),
                period == self.config_spec().tick_period,
                self.elapsed() == acc % period,
                t <= n,
                old(self).active().len() == 0 ==> (self.cells() == old(self).cells() && self.instances()
                    == old(self).instances() && self.active().len() == 0),
                start == old(self).with_elapsed(acc % period),
                start.cells() == old(self).cells() && start.instances() == old(self).instances()
                    && start.active() == old(self).active(),
                ts.len() == t + 1,
                ts[0] == start,
                ts.last() == *self,
                forall|k: int| 0 <= k < t ==> tick_spec(#[trigger] ts[k], ts[k + 1]),
            decreases n - t,
        {
            self.step();
            proof {
                let ts2 = ts.push(*self);
                assert forall|k: int| 0 <= k < t + 1 implies tick_spec(#[trigger] ts2[k], ts2[k + 1]) by {
                    if k < t {
                        assert(ts2[k] == ts[k] && ts2[k + 1] == ts[k + 1]);
                    }
                }
                ts = ts2;
            }
            t += 1;
        }
        proof {
            assert(tick_chain(start, ts, *self, n as nat));
        }
        n
    }

    /// Hands the slot store's draw plan to the caller, who uploads and draws.
    pub fn draw(&mut self) -> (plan: crate::instance::DrawPlan)
        requires
            old(self).wf(),
        ensures
            final(self).wf(),
            final(self).cells() == old(self).cells(),
            final(self).instances() == old(self).instances(),
            plan.instance_count == old(self).instances().len(),
            plan.upload == old(self).store().dirty(),
    {
        self.mesh_instance.draw()
    }
}

/// Whether `q` lies within the wake radius of the position that the update
/// `r` reports (where the cell moved, or the cell it swapped or reacted with).
pub open spec fn near_target(r: Option<CellUpdate>, q: GridPos, radius: int) -> bool {
    match r {
        Some(u) => match u.new_pos {
            Some(np) => within(np, q, radius),
            None => false,
        },
        None => false,
    }
}

/// What updating the cell at `pos` does, from state `a` to state `b`, with
/// `r` the outcome reported.
pub open spec fn cell_outcome(a: Sandbox, pos: GridPos, r: Option<CellUpdate>, b: Sandbox) -> bool {
    let o = a.cells();
    let f = b.cells();
    let c = o[pos];
    let rad = a.config_spec().wake_radius as int;
    let ticks = a.config_spec().sleep_ticks;
    let np = match r {
        Some(u) => u.new_pos,
        None => None,
    };
    let plain = r matches Some(u) && u.updated && !u.swapped && u.transition.is_none();
    // The cell's slot is freed when it leaves the grid other than by moving.
    let freed = o.contains_key(pos) && !f.contains_key(pos) && !plain;
    &&& b.wf()
    &&& b.config_spec() == a.config_spec()
    &&& b.elapsed() == a.elapsed()
    // An empty or sleeping position costs nothing.
    &&& (!o.contains_key(pos) || c.sleeping) ==> (r.is_none() && b == a)
    // An awake cell is always resolved, unless it is ejected.
    &&& (o.contains_key(pos) && !c.sleeping && !beyond_cap(c.momentum, a.config_spec().momentum_cap))
        ==> r.is_some()
    &&& (o.contains_key(pos) && !c.sleeping && beyond_cap(c.momentum, a.config_spec().momentum_cap))
        ==> (r.is_none() && (forall|q: GridPos| #[trigger] f.contains_key(q) <==> (o.contains_key(q) && q != pos)))
    &&& (o.contains_key(pos) && !c.sleeping && !beyond_cap(c.momentum, a.config_spec().momentum_cap)
        && c.momentum + a.config_spec().acceleration > 0 && first_contact(c.kind, o, pos)) ==> (r matches Some(u)
        && u.new_pos == offset_pos(pos, movement_spec(c.kind)[0][0]) && (u.transition.is_some() || u.swapped))
    &&& r matches Some(u) ==> {
        &&& exists|path: Seq<GridPos>, dirs: Seq<GridPos>, gs: Seq<int>| #[trigger] walk(c.kind, o, pos, path, dirs, gs, u)
        &&& u.steps == 0 || u.steps * MOMENTUM_STEP < c.momentum + a.config_spec().acceleration + MOMENTUM_STEP
        &&& (u.transition.is_some() || u.swapped) ==> u.steps * MOMENTUM_STEP < c.momentum + a.config_spec().acceleration
        &&& (u.updated && u.transition.is_none() && !u.swapped) ==> u.steps > 0
        &&& o.contains_key(pos)
        &&& !c.sleeping
        &&& !beyond_cap(c.momentum, a.config_spec().momentum_cap)
        &&& (!u.updated <==> (c.momentum + a.config_spec().acceleration <= 0 || !has_legal_move(c.kind, o, pos)))
    }
    // A stalled cell spends one tick of its sleep counter; nothing else changes.
    &&& r matches Some(u) ==> (!u.updated ==> (f == o.insert(pos, sleep_spec(Cell { momentum: u.new_momentum, ..c }))
        && b.instances() == a.instances() && (f[pos].sleeping ==> !b.active().contains(pos))))
    &&& r matches Some(u) ==> (u.transition matches Some(t) ==> (u.new_pos matches Some(q) && {
        &&& q != pos
        &&& o.contains_key(q)
        &&& Some(t) == find_transition(transitions_spec(c.kind), o[q].kind)
        &&& f.contains_key(q)
        &&& (f.contains_key(pos) <==> !t.remove)
        &&& t.target == TransitionTarget::Other ==> f[q].kind == t.result
        &&& (t.target == TransitionTarget::This && !t.remove) ==> f[pos].kind == t.result
    }))
    &&& r matches Some(u) ==> (u.swapped ==> (u.new_pos matches Some(q) && q != pos && f.contains_key(q)
        && f.contains_key(pos) && f[pos].kind == o[q].kind && f[q].kind == o[pos].kind && u.transition.is_none()
        && find_transition(transitions_spec(c.kind), o[q].kind).is_none() && is_liquid_spec(o[q].kind)
        && !is_liquid_spec(c.kind)))
    // An ejected cell wakes its sleeping neighbours as a removal does.
    &&& (o.contains_key(pos) && !c.sleeping && beyond_cap(c.momentum, a.config_spec().momentum_cap)) ==> (forall|
        q: GridPos,
    | #[trigger] f.contains_key(q) && within(pos, q, rad) ==> !f[q].sleeping)
    // One record goes exactly when a slot is freed.
    &&& b.instances().len() == (if freed { a.instances().len() - 1 } else { a.instances().len() as int })
    // Every other cell stays, with its slot shifted down past a freed one and
    // its record along; it is at most woken.
    &&& forall|x: GridPos|
        #[trigger] o.contains_key(x) && x != pos && np != Some(x) ==> (f.contains_key(x) && kept_or_woken(
            f[x],
            shift_if(o[x], freed, c.idx),
            ticks,
        ) && b.instances()[f[x].idx as int] == a.instances()[o[x].idx as int])
    &&& r matches Some(u) ==> ((u.updated && !u.swapped && u.transition.is_none()) ==> (u.new_pos matches Some(q)
        && !o.contains_key(q) && !f.contains_key(pos) && f.contains_key(q) && f[q].kind == c.kind && f[q].idx
        == c.idx && f[q].momentum == u.new_momentum && !f[q].sleeping))
    // The touched cells and every sleeping cell within the wake radius of
    // them are awake afterwards.
    &&& r matches Some(u) ==> (u.updated ==> (forall|q: GridPos| #[trigger] f.contains_key(q) && (within(pos, q, rad)
        || near_target(r, q, rad)) ==> !f[q].sleeping))
    // Cells away from both positions keep their kind, momentum and sleep
    // state, and no cell appears except where the update moved.
    &&& forall|q: GridPos| #[trigger] o.contains_key(q) && q != pos && !within(pos, q, rad) && !near_target(r, q, rad)
        ==> (f.contains_key(q) && f[q] == shift_if(o[q], freed, c.idx))
    &&& forall|q: GridPos| #[trigger] f.contains_key(q) ==> (o.contains_key(q) || (r matches Some(u) && u.new_pos
        == Some(q)))
}

/// The states `st` of one tick from `a` to `b`: `st[i + 1]` comes from
/// `st[i]` by updating the `i`-th position of `a`'s active list.
pub open spec fn tick_trace(a: Sandbox, st: Seq<Sandbox>, b: Sandbox) -> bool {
    &&& st.len() == a.active().len() + 1
    &&& st[0] == a
    &&& st.last() == b
    &&& forall|i: int| 0 <= i < a.active().len() ==> #[trigger] cell_stepped(st[i], a.active()[i], st[i + 1])
}

/// `b` comes from `a` by updating the cell at `p`, with some outcome.
pub open spec fn cell_stepped(a: Sandbox, p: GridPos, b: Sandbox) -> bool {
    exists|r: Option<CellUpdate>| #[trigger] cell_outcome(a, p, r, b)
}

/// `b` is the state after one tick from `a`.
pub open spec fn tick_spec(a: Sandbox, b: Sandbox) -> bool {
    exists|st: Seq<Sandbox>| #[trigger] tick_trace(a, st, b)
}

/// `ts` are the states of `n` ticks in a row from `a` to `b`.
pub open spec fn tick_chain(a: Sandbox, ts: Seq<Sandbox>, b: Sandbox, n: nat) -> bool {
    &&& ts.len() == n + 1
    &&& ts[0] == a
    &&& ts.last() == b
    &&& forall|k: int| 0 <= k < n ==> tick_spec(#[trigger] ts[k], ts[k + 1])
}

/// Setting the clock changes nothing else, and keeps a state well formed
/// when the new time is below the tick period.
pub proof fn lemma_with_elapsed(s: Sandbox, t: u64)
    ensures
        s.with_elapsed(t).cells() == s.cells(),
        s.with_elapsed(t).instances() == s.instances(),
        s.with_elapsed(t).active() == s.active(),
        s.with_elapsed(t).config_spec() == s.config_spec(),
        s.with_elapsed(t).elapsed() == t,
        s.wf() && t < s.config_spec().tick_period ==> s.with_elapsed(t).wf(),
{
}

/// When an awake sand cell resting directly on water, under the cap and with
/// positive drive, is updated, the water becomes wet sand in place, the sand
/// leaves the grid, and exactly one record is freed.
pub proof fn lemma_sand_on_water_step(a: Sandbox, p: GridPos, r: Option<CellUpdate>, b: Sandbox)
    requires
        cell_outcome(a, p, r, b),
        a.cells().contains_key(p),
        a.cells()[p].kind == CellKind::Sand,
        !a.cells()[p].sleeping,
        !beyond_cap(a.cells()[p].momentum, a.config_spec().momentum_cap),
        a.cells()[p].momentum + a.config_spec().acceleration > 0,
        p.1 > isize::MIN,
        a.cells().contains_key((p.0, (p.1 - 1) as isize)),
        a.cells()[(p.0, (p.1 - 1) as isize)].kind == CellKind::Water,
    ensures
        !b.cells().contains_key(p),
        b.cells().contains_key((p.0, (p.1 - 1) as isize)),
        b.cells()[(p.0, (p.1 - 1) as isize)].kind == CellKind::WetSand,
        b.instances().len() == a.instances().len() - 1,
{
    lemma_sand_meets_water(a.cells(), p);
}

/// When an awake sand cell with a free cell directly below it, under the cap
/// and with a drive of at most one step, is updated, it moves exactly one row
/// down and keeps its slot; no record is added or freed.
pub proof fn lemma_sand_falls_one_row(a: Sandbox, p: GridPos, r: Option<CellUpdate>, b: Sandbox)
    requires
        cell_outcome(a, p, r, b),
        a.cells().contains_key(p),
        a.cells()[p].kind == CellKind::Sand,
        !a.cells()[p].sleeping,
        !beyond_cap(a.cells()[p].momentum, a.config_spec().momentum_cap),
        0 < a.cells()[p].momentum + a.config_spec().acceleration <= MOMENTUM_STEP,
        p.1 > isize::MIN,
        !a.cells().contains_key((p.0, (p.1 - 1) as isize)),
    ensures
        r matches Some(u) && u.new_pos == Some((p.0, (p.1 - 1) as isize)) && u.steps == 1,
        !b.cells().contains_key(p),
        b.cells().contains_key((p.0, (p.1 - 1) as isize)),
        b.cells()[(p.0, (p.1 - 1) as isize)].kind == CellKind::Sand,
        b.cells()[(p.0, (p.1 - 1) as isize)].idx == a.cells()[p].idx,
        b.instances().len() == a.instances().len(),
{
    let o = a.cells();
    let c = o[p];
    let below = (p.0, (p.1 - 1) as isize);
    let g0 = movement_spec(CellKind::Sand)[0];
    assert(g0 == seq![(0isize, -1isize)]);
    assert(offset_pos(p, g0[0]) == Some(below));
    assert(group_open(CellKind::Sand, o, p, None, g0));
    let u = r.unwrap();
    let (path, dirs, gs) = choose|path: Seq<GridPos>, dirs: Seq<GridPos>, gs: Seq<int>|
        #[trigger] walk(c.kind, o, p, path, dirs, gs, u);
    assert(u.steps <= 1) by (nonlinear_arith)
        requires
            u.steps == 0 || u.steps * MOMENTUM_STEP < c.momentum + a.config_spec().acceleration + MOMENTUM_STEP,
            c.momentum + a.config_spec().acceleration <= MOMENTUM_STEP,
            MOMENTUM_STEP == 1000,
    ;
    if u.transition.is_some() || u.swapped {
        assert(u.steps == 0) by (nonlinear_arith)
            requires
                u.steps * MOMENTUM_STEP < c.momentum + a.config_spec().acceleration,
                c.momentum + a.config_spec().acceleration <= MOMENTUM_STEP,
                MOMENTUM_STEP == 1000,
        ;
        let (d, g) = choose|d: GridPos, g: int| #[trigger] contact_ok(c.kind, o, path.last(), u.new_pos, d, g, crate::cell::prev_dir(dirs, u.steps as int));
        assert(path.last() == p);
        assert(g == 0);
        assert(d == (0isize, -1isize));
        assert(false);
    }
    assert(u.updated);
    assert(u.steps == 1);
    assert(step_ok(c.kind, o, path[0], path[1], dirs[0], gs[0], crate::cell::prev_dir(dirs, 0)));
    assert(gs[0] == 0);
    assert(dirs[0] == (0isize, -1isize));
}

/// Slot density: in a well-formed sandbox the slots held by live cells are
/// exactly `0..count` of the slot store, no two cells share a slot, and every
/// cell's render record is placed at that cell.
pub proof fn lemma_slots_dense(s: &Sandbox)
    requires
        s.wf(),
    ensures
        Set::new(|i: int| exists|p: GridPos| #[trigger] s.cells().contains_key(p) && s.cells()[p].idx == i)
            == Set::new(|i: int| 0 <= i < s.instances().len()),
        forall|p: GridPos, q: GridPos|
            #[trigger] s.cells().contains_key(p) && #[trigger] s.cells().contains_key(q) && p != q
                ==> s.cells()[p].idx != s.cells()[q].idx,
        forall|p: GridPos| #[trigger]
            s.cells().contains_key(p) ==> s.instances()[s.cells()[p].idx as int].transform == placement(p),
{
    let used = Set::new(|i: int| exists|p: GridPos| #[trigger] s.cells().contains_key(p) && s.cells()[p].idx == i);
    let range = Set::new(|i: int| 0 <= i < s.instances().len());
    assert forall|i: int| range.contains(i) implies used.contains(i) by {
        let p = s.owners()[i];
        assert(s.cells().contains_key(p) && s.cells()[p].idx == i);
    }
    assert forall|i: int| used.contains(i) implies range.contains(i) by {
        let p = choose|p: GridPos| #[trigger] s.cells().contains_key(p) && s.cells()[p].idx == i;
    }
    assert(used =~= range);
    assert forall|p: GridPos, q: GridPos|
        #[trigger] s.cells().contains_key(p) && #[trigger] s.cells().contains_key(q) && p != q implies s.cells()[p].idx
            != s.cells()[q].idx by {
        assert(s.owners()[s.cells()[p].idx as int] == p);
        assert(s.owners()[s.cells()[q].idx as int] == q);
    }
}

/// Sand resting directly on water meets the water first, whatever the random
/// order of its moves, and its table turns the water into wet sand and removes
/// the sand.
pub proof fn lemma_sand_meets_water(cells: Map<GridPos, Cell>, p: GridPos)
    requires
        cells.contains_key(p),
        cells[p].kind == CellKind::Sand,
        p.1 > isize::MIN,
        cells.contains_key((p.0, (p.1 - 1) as isize)),
        cells[(p.0, (p.1 - 1) as isize)].kind == CellKind::Water,
    ensures
        first_contact(CellKind::Sand, cells, p),
        offset_pos(p, movement_spec(CellKind::Sand)[0][0]) == Some((p.0, (p.1 - 1) as isize)),
        find_transition(transitions_spec(CellKind::Sand), CellKind::Water) == Some(
            CellTransition {
                condition: CellKind::Water,
                result: CellKind::WetSand,
                remove: true,
                target: TransitionTarget::Other,
            },
        ),
{
    lemma_no_self_trigger(CellKind::Sand);
    assert(offset_pos(p, (0isize, 0isize)) == Some(p));
}

} // verus!
