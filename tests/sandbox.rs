use falling_sand::cell::MOMENTUM_STEP;
use falling_sand::{CellKind, GridPos, Instance, Sandbox, SimConfig, TransitionTarget};

fn one_step_config() -> SimConfig {
    SimConfig {
        tick_period: 1000,
        acceleration: MOMENTUM_STEP,
        momentum_cap: 75 * MOMENTUM_STEP,
        sleep_ticks: 1,
        wake_radius: 3,
    }
}

fn sandbox_with(config: SimConfig) -> Sandbox {
    Sandbox::with_config(Instance::new(4), config, 7)
}

fn floor(s: &mut Sandbox, y: isize, xs: std::ops::RangeInclusive<isize>) {
    for x in xs {
        s.insert_cell((x, y), CellKind::Stone);
    }
}

/// Every live cell's slot is in `0..count`, no slot is used twice, every slot
/// is used, and each record sits at its cell.
fn assert_dense(s: &Sandbox, live: &[GridPos]) {
    let count = s.mesh_instance().instance_count();
    assert_eq!(count, live.len());
    let mut seen = vec![false; count];
    for &p in live {
        let c = s.get_cell(p).expect("live cell missing");
        assert!(c.idx < count);
        assert!(!seen[c.idx], "slot shared");
        seen[c.idx] = true;
        let rec = s.mesh_instance().get_instance(c.idx).unwrap();
        assert_eq!(rec.transform.translation, p);
        assert!(c.kind.palette().contains(&rec.color));
    }
    assert!(seen.iter().all(|&b| b));
}

#[test]
fn sand_falls_one_step_per_tick_then_sleeps() {
    let mut s = sandbox_with(one_step_config());
    floor(&mut s, -1, -1..=1);
    s.insert_cell((0, 5), CellKind::Sand);
    let slot = s.get_cell((0, 5)).unwrap().idx;
    for tick in 1..=5 {
        assert_eq!(s.update(1000), 1);
        let y = 5 - tick;
        let c = s.get_cell((0, y)).expect("sand should be one step lower");
        assert_eq!(c.kind, CellKind::Sand);
        assert_eq!(c.idx, slot);
        assert!(!c.sleeping);
        assert!(!s.occupied(&(0, y + 1)));
    }
    assert_eq!(s.update(1000), 1);
    let c = s.get_cell((0, 0)).unwrap();
    assert_eq!(c.idx, slot);
    assert!(c.sleeping);
    assert!(!s.active_cells().contains(&(0, 0)));
    // A sleeping cell does no further work.
    assert_eq!(s.update(3000), 3);
    assert_eq!(s.get_cell((0, 0)).unwrap(), c);
}

#[test]
fn sand_on_water_becomes_wet_sand() {
    let mut s = Sandbox::new(Instance::new(4), 1);
    s.insert_cell((0, 1), CellKind::Sand);
    s.insert_cell((0, 0), CellKind::Water);
    floor(&mut s, -1, -1..=1);
    let before = s.mesh_instance().instance_count();
    assert_eq!(s.update(SimConfig::default().tick_period), 1);
    assert!(!s.occupied(&(0, 1)));
    assert_eq!(s.get_cell((0, 0)).unwrap().kind, CellKind::WetSand);
    assert_eq!(s.mesh_instance().instance_count(), before - 1);
    assert_dense(&s, &[(0, 0), (-1, -1), (0, -1), (1, -1)]);
}

#[test]
fn transition_follows_table_for_any_seed() {
    for seed in 0..20 {
        let mut s = Sandbox::new(Instance::new(2), seed);
        s.insert_cell((3, 8), CellKind::Sand);
        s.insert_cell((3, 7), CellKind::Water);
        let u = s.update_cell_at((3, 8)).unwrap();
        let t = u.transition.expect("sand above water transitions");
        assert_eq!(t.result, CellKind::WetSand);
        assert_eq!(t.target, TransitionTarget::Other);
        assert!(t.remove);
        assert_eq!(u.new_pos, Some((3, 7)));
        assert_eq!(u.new_momentum, 0);
        assert!(!s.occupied(&(3, 8)));
        assert_eq!(s.get_cell((3, 7)).unwrap().kind, CellKind::WetSand);
    }
}

#[test]
fn removing_lowest_slot_shifts_survivors() {
    let mut s = sandbox_with(one_step_config());
    let live: Vec<GridPos> = vec![(0, 0), (5, 5), (-3, 2), (10, -4), (7, 7)];
    for &p in &live {
        s.insert_cell(p, CellKind::Stone);
    }
    let before: Vec<_> = live
        .iter()
        .map(|&p| {
            let c = s.get_cell(p).unwrap();
            (c.idx, s.mesh_instance().get_instance(c.idx).unwrap())
        })
        .collect();
    assert_eq!(before[0].0, 0);
    let removed = s.remove_cell((0, 0)).unwrap();
    assert_eq!(removed.idx, 0);
    for (i, &p) in live.iter().enumerate().skip(1) {
        let c = s.get_cell(p).unwrap();
        assert_eq!(c.idx, before[i].0 - 1);
        assert_eq!(s.mesh_instance().get_instance(c.idx).unwrap(), before[i].1);
    }
    assert_dense(&s, &live[1..]);
}

#[test]
fn removing_middle_slot_keeps_lower_slots() {
    let mut s = sandbox_with(one_step_config());
    let live: Vec<GridPos> = vec![(0, 0), (1, 0), (2, 0), (3, 0)];
    for &p in &live {
        s.insert_cell(p, CellKind::Stone);
    }
    s.remove_cell((1, 0));
    assert_eq!(s.get_cell((0, 0)).unwrap().idx, 0);
    assert_eq!(s.get_cell((2, 0)).unwrap().idx, 1);
    assert_eq!(s.get_cell((3, 0)).unwrap().idx, 2);
    assert_dense(&s, &[(0, 0), (2, 0), (3, 0)]);
}

#[test]
fn slots_stay_dense_over_inserts_and_removes() {
    let mut s = sandbox_with(one_step_config());
    let mut live: Vec<GridPos> = Vec::new();
    let mut state: u64 = 12345;
    for _ in 0..300 {
        state = state.wrapping_mul(6364136223846793005).wrapping_add(1442695040888963407);
        let p = (((state >> 33) % 7) as isize, ((state >> 40) % 7) as isize);
        if (state >> 20) % 3 == 0 {
            let was = s.remove_cell(p);
            assert_eq!(was.is_some(), live.contains(&p));
            live.retain(|&q| q != p);
        } else {
            s.insert_cell(p, CellKind::Stone);
            if !live.contains(&p) {
                live.push(p);
            }
        }
        assert_dense(&s, &live);
    }
}

#[test]
fn insert_on_occupied_position_changes_nothing() {
    let mut s = sandbox_with(one_step_config());
    s.insert_cell((2, 2), CellKind::Sand);
    let cell = s.get_cell((2, 2)).unwrap();
    let rec = s.mesh_instance().get_instance(cell.idx).unwrap();
    s.insert_cell((2, 2), CellKind::Water);
    assert_eq!(s.get_cell((2, 2)).unwrap(), cell);
    assert_eq!(s.mesh_instance().instance_count(), 1);
    assert_eq!(s.mesh_instance().get_instance(cell.idx).unwrap(), rec);
    assert_eq!(s.active_cells(), vec![(2, 2)]);
}

#[test]
fn remove_on_empty_position_is_a_no_op() {
    let mut s = sandbox_with(one_step_config());
    s.insert_cell((0, 0), CellKind::Stone);
    assert!(s.remove_cell((9, 9)).is_none());
    assert_eq!(s.mesh_instance().instance_count(), 1);
}

#[test]
fn removal_wakes_sleeping_neighbours_within_radius() {
    let mut s = sandbox_with(one_step_config());
    s.insert_cell((0, 0), CellKind::Stone);
    s.insert_cell((3, 3), CellKind::Stone);
    s.insert_cell((5, 0), CellKind::Stone);
    s.insert_cell((1, 1), CellKind::Stone);
    s.update(1000);
    for p in [(0, 0), (3, 3), (5, 0), (1, 1)] {
        assert!(s.get_cell(p).unwrap().sleeping);
    }
    assert!(s.active_cells().is_empty());
    s.remove_cell((1, 1));
    assert!(!s.get_cell((0, 0)).unwrap().sleeping);
    assert!(!s.get_cell((3, 3)).unwrap().sleeping);
    assert!(s.get_cell((5, 0)).unwrap().sleeping);
    let active = s.active_cells();
    assert!(active.contains(&(0, 0)) && active.contains(&(3, 3)));
    assert!(!active.contains(&(5, 0)));
}

#[test]
fn moving_wakes_neighbours_of_the_old_position() {
    let mut s = sandbox_with(one_step_config());
    s.insert_cell((0, 0), CellKind::Stone);
    s.insert_cell((2, 0), CellKind::Stone);
    s.update(1000);
    assert!(s.get_cell((2, 0)).unwrap().sleeping);
    s.move_cell(&(0, 0), &(-10, 0));
    assert!(!s.occupied(&(0, 0)));
    assert_eq!(s.get_cell((-10, 0)).unwrap().idx, 0);
    assert_eq!(s.mesh_instance().get_instance(0).unwrap().transform.translation, (-10, 0));
    assert!(!s.get_cell((2, 0)).unwrap().sleeping);
}

#[test]
fn move_onto_occupied_position_is_a_no_op() {
    let mut s = sandbox_with(one_step_config());
    s.insert_cell((0, 0), CellKind::Sand);
    s.insert_cell((1, 0), CellKind::Water);
    s.move_cell(&(0, 0), &(1, 0));
    assert_eq!(s.get_cell((0, 0)).unwrap().kind, CellKind::Sand);
    assert_eq!(s.get_cell((1, 0)).unwrap().kind, CellKind::Water);
}

#[test]
fn swap_exchanges_kinds_and_keeps_slots() {
    let mut s = sandbox_with(one_step_config());
    s.insert_cell((0, 1), CellKind::Sand);
    s.insert_cell((0, 0), CellKind::Water);
    s.swap_cells(&(0, 1), (0, 0));
    let a = s.get_cell((0, 1)).unwrap();
    let b = s.get_cell((0, 0)).unwrap();
    assert_eq!((a.kind, a.idx), (CellKind::Water, 0));
    assert_eq!((b.kind, b.idx), (CellKind::Sand, 1));
    assert_dense(&s, &[(0, 1), (0, 0)]);
}

#[test]
fn sand_sinks_through_water_by_swapping() {
    let mut s = sandbox_with(one_step_config());
    s.insert_cell((0, 1), CellKind::WetSand);
    s.insert_cell((0, 0), CellKind::Water);
    let u = s.update_cell_at((0, 1)).unwrap();
    assert!(u.swapped);
    assert_eq!(u.new_pos, Some((0, 0)));
    assert_eq!(s.get_cell((0, 1)).unwrap().kind, CellKind::Water);
    assert_eq!(s.get_cell((0, 0)).unwrap().kind, CellKind::WetSand);
}

#[test]
fn change_kind_recolours_from_the_new_palette() {
    let mut s = sandbox_with(one_step_config());
    s.insert_cell((0, 0), CellKind::Sand);
    s.change_cell_kind((0, 0), CellKind::Stone);
    let c = s.get_cell((0, 0)).unwrap();
    assert_eq!(c.kind, CellKind::Stone);
    let rec = s.mesh_instance().get_instance(c.idx).unwrap();
    assert!(CellKind::Stone.palette().contains(&rec.color));
    assert_eq!(rec.transform.translation, (0, 0));
}

#[test]
fn excess_momentum_ejects_the_cell() {
    let config = SimConfig { acceleration: -10 * MOMENTUM_STEP, momentum_cap: 15 * MOMENTUM_STEP, ..one_step_config() };
    let mut s = sandbox_with(SimConfig { sleep_ticks: 100, ..config });
    s.insert_cell((0, 0), CellKind::Sand);
    s.update(1000);
    assert_eq!(s.get_cell((0, 0)).unwrap().momentum, -10 * MOMENTUM_STEP);
    s.update(1000);
    assert_eq!(s.get_cell((0, 0)).unwrap().momentum, -20 * MOMENTUM_STEP);
    s.update(1000);
    assert!(!s.occupied(&(0, 0)));
    assert_eq!(s.mesh_instance().instance_count(), 0);
}

#[test]
fn accumulator_runs_whole_ticks_and_keeps_remainder() {
    let mut s = Sandbox::new(Instance::new(1), 3);
    let period = SimConfig::default().tick_period;
    assert_eq!(s.update(period - 1), 0);
    assert_eq!(s.update(1), 1);
    assert_eq!(s.update(3 * period + 5), 3);
    assert_eq!(s.update(period - 5), 1);
}

#[test]
fn draw_uploads_only_when_dirty() {
    let mut s = Sandbox::new(Instance::new(1), 3);
    s.insert_cell((0, 0), CellKind::Stone);
    s.insert_cell((1, 0), CellKind::Stone);
    let plan = s.draw();
    assert!(plan.upload);
    assert_eq!(plan.realloc, Some(2));
    assert_eq!(plan.instance_count, 2);
    let plan = s.draw();
    assert!(!plan.upload);
    assert_eq!(plan.realloc, None);
}

#[test]
fn default_config_is_the_reference() {
    let c = SimConfig::default();
    assert_eq!(c, SimConfig::default());
    assert_eq!(c.tick_period, 41_667);
    assert_eq!(c.sleep_ticks, 25);
    assert_eq!(c.wake_radius, 3);
}

#[test]
fn cells_at_the_edge_of_the_coordinate_range_stay_put() {
    let mut s = sandbox_with(one_step_config());
    s.insert_cell((0, isize::MIN), CellKind::Sand);
    s.insert_cell((isize::MAX, 5), CellKind::Stone);
    let u = s.update_cell_at((0, isize::MIN)).unwrap();
    assert!(!u.updated);
    assert!(s.get_cell((0, isize::MIN)).unwrap().sleeping);
    s.remove_cell((isize::MAX, 5));
    assert_eq!(s.mesh_instance().instance_count(), 1);
    assert_eq!(s.get_cell((0, isize::MIN)).unwrap().idx, 0);
}

#[test]
fn water_at_the_right_edge_flows_left() {
    let mut s = sandbox_with(one_step_config());
    s.insert_cell((isize::MAX - 1, 0), CellKind::Stone);
    s.insert_cell((isize::MAX, 0), CellKind::Stone);
    s.insert_cell((isize::MAX, 1), CellKind::Water);
    s.insert_cell((isize::MAX - 1, 1), CellKind::Stone);
    let u = s.update_cell_at((isize::MAX, 1)).unwrap();
    assert!(!u.updated);
    s.remove_cell((isize::MAX - 1, 1));
    let u = s.update_cell_at((isize::MAX, 1)).unwrap();
    assert_eq!(u.new_pos, Some((isize::MAX - 1, 1)));
    assert_eq!(s.get_cell((isize::MAX - 1, 1)).unwrap().kind, CellKind::Water);
}
