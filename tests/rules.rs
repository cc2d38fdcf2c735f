use falling_sand::flat::{flatten, Flattenable};
use falling_sand::cell::MOMENTUM_STEP;
use falling_sand::render::{AttributeType, Samples, VertexAttribute, WindowConfig, WindowMode};
use falling_sand::{
    Brush, BrushSize, Cell, CellKind, Instance, InstanceData, Rgba, Sandbox, SimConfig, Transform, TransitionTarget,
};
use rand::rngs::StdRng;
use rand::SeedableRng;

fn quiet_config() -> SimConfig {
    SimConfig { tick_period: 1000, acceleration: MOMENTUM_STEP, momentum_cap: 75_000, sleep_ticks: 1, wake_radius: 3 }
}

fn record(x: isize, y: isize, shade: u8) -> InstanceData {
    InstanceData::new(Transform::from_translation((x, y)).with_scale(32), &Rgba::new(shade, shade, shade, 255))
}

#[test]
fn update_walks_as_far_as_momentum_allows() {
    let mut s = Sandbox::with_config(Instance::new(1), quiet_config(), 1);
    s.insert_cell((0, 10), CellKind::Sand);
    let cell = s.get_cell((0, 10)).unwrap();
    let mut rng = StdRng::seed_from_u64(5);
    let u = cell.update((0, 10), s.grid(), 2500, &mut rng);
    assert!(u.updated);
    assert_eq!(u.steps, 3);
    assert_eq!(u.new_pos, Some((0, 7)));
    assert_eq!(u.new_momentum, 2500 - 3 * MOMENTUM_STEP);
    assert!(u.transition.is_none() && !u.swapped);
}

#[test]
fn update_blocked_zeroes_momentum() {
    let mut s = Sandbox::with_config(Instance::new(4), quiet_config(), 1);
    for x in -1..=1 {
        s.insert_cell((x, -1), CellKind::Stone);
    }
    s.insert_cell((0, 0), CellKind::Sand);
    let cell = s.get_cell((0, 0)).unwrap();
    let mut rng = StdRng::seed_from_u64(9);
    let u = cell.update((0, 0), s.grid(), 4 * MOMENTUM_STEP, &mut rng);
    assert!(!u.updated);
    assert_eq!(u.new_pos, None);
    assert_eq!(u.new_momentum, 0);
    assert_eq!(u.steps, 0);
}

#[test]
fn update_stops_at_an_obstacle_with_momentum_zeroed() {
    let mut s = Sandbox::with_config(Instance::new(4), quiet_config(), 1);
    for x in -3..=3 {
        s.insert_cell((x, -1), CellKind::Stone);
    }
    s.insert_cell((0, 2), CellKind::Sand);
    let cell = s.get_cell((0, 2)).unwrap();
    let mut rng = StdRng::seed_from_u64(2);
    let u = cell.update((0, 2), s.grid(), 10 * MOMENTUM_STEP, &mut rng);
    assert!(u.updated);
    assert_eq!(u.steps, 2);
    assert_eq!(u.new_pos, Some((0, 0)));
    assert_eq!(u.new_momentum, 0);
}

#[test]
fn update_without_drive_does_nothing() {
    let mut s = Sandbox::with_config(Instance::new(1), quiet_config(), 1);
    s.insert_cell((0, 0), CellKind::Water);
    let cell = s.get_cell((0, 0)).unwrap();
    let mut rng = StdRng::seed_from_u64(1);
    let u = cell.update((0, 0), s.grid(), -300, &mut rng);
    assert!(!u.updated);
    assert_eq!(u.new_momentum, -300);
}

#[test]
fn water_spreads_sideways_when_only_sides_are_free() {
    let mut s = Sandbox::with_config(Instance::new(4), quiet_config(), 1);
    for x in -2..=2 {
        s.insert_cell((x, -1), CellKind::Stone);
    }
    s.insert_cell((0, 0), CellKind::Water);
    let cell = s.get_cell((0, 0)).unwrap();
    let mut rng = StdRng::seed_from_u64(4);
    let u = cell.update((0, 0), s.grid(), MOMENTUM_STEP, &mut rng);
    assert!(u.updated);
    let p = u.new_pos.unwrap();
    assert!(p == (1, 0) || p == (-1, 0));
}

#[test]
fn shuffled_group_is_a_permutation_in_varying_order() {
    let groups = CellKind::Sand.movement();
    let mut rng = StdRng::seed_from_u64(11);
    let mut seen_first = Vec::new();
    for _ in 0..64 {
        let mut v = groups[1].shuffled(&mut rng);
        seen_first.push(v[0]);
        v.sort();
        assert_eq!(v, vec![(-1, -1), (1, -1)]);
    }
    assert!(seen_first.contains(&(1, -1)) && seen_first.contains(&(-1, -1)));
}

#[test]
fn rule_table() {
    assert_eq!(CellKind::Stone.movement().len(), 0);
    assert_eq!(CellKind::Sand.movement().len(), 2);
    assert_eq!(CellKind::Water.movement().len(), 3);
    assert!(CellKind::Water.is_liquid());
    assert!(!CellKind::Sand.is_liquid() && !CellKind::WetSand.is_liquid() && !CellKind::Stone.is_liquid());
    let t = CellKind::Water.transitions();
    assert_eq!(t.len(), 1);
    assert_eq!(t[0].condition, CellKind::Sand);
    assert_eq!(t[0].result, CellKind::WetSand);
    assert_eq!(t[0].target, TransitionTarget::Other);
    assert!(t[0].remove);
    assert!(CellKind::WetSand.transitions().is_empty());
    assert!(CellKind::Stone.transitions().is_empty());
    assert_eq!(CellKind::Sand.palette()[0], Rgba::new(246, 215, 176, 255));
}

#[test]
fn colours_come_from_the_palette() {
    let mut rng = StdRng::seed_from_u64(3);
    for kind in [CellKind::Sand, CellKind::WetSand, CellKind::Stone, CellKind::Water] {
        let palette = kind.palette();
        let mut distinct = Vec::new();
        for _ in 0..50 {
            let c = kind.color(&mut rng);
            assert!(palette.contains(&c));
            if !distinct.contains(&c) {
                distinct.push(c);
            }
        }
        assert!(distinct.len() > 1);
    }
}

#[test]
fn cell_sleeps_after_counter_runs_out() {
    let mut c = Cell::new(CellKind::Sand, 4);
    assert_eq!((c.momentum, c.sleep_counter, c.sleeping), (0, 0, false));
    c.wake(3);
    c.sleep();
    c.sleep();
    assert!(!c.asleep());
    c.sleep();
    assert!(c.asleep());
    c.sleep();
    assert_eq!(c.sleep_counter, 0);
    c.wake(2);
    assert!(!c.asleep());
    assert_eq!(c.sleep_counter, 2);
}

#[test]
fn full_store_doubles_and_keeps_records() {
    let mut inst = Instance::new(3);
    for i in 0..3 {
        assert_eq!(inst.add_instance(record(i, 0, i as u8)), i as usize);
    }
    assert_eq!(inst.capacity(), 3);
    let before: Vec<_> = (0..3).map(|i| inst.get_instance(i).unwrap()).collect();
    let idx = inst.add_instance(record(9, 9, 200));
    assert_eq!(idx, 3);
    assert_eq!(inst.capacity(), 6);
    assert_eq!(inst.instance_count(), 4);
    for i in 0..3 {
        assert_eq!(inst.get_instance(i).unwrap(), before[i]);
    }
    assert_eq!(inst.get_instance(3).unwrap(), record(9, 9, 200));
    assert!(inst.get_instance(4).is_none());
}

#[test]
fn empty_store_grows_to_one() {
    let mut inst = Instance::new(0);
    assert_eq!(inst.add_instance(record(0, 0, 1)), 0);
    assert_eq!(inst.capacity(), 1);
    inst.add_instance(record(1, 0, 1));
    assert_eq!(inst.capacity(), 2);
}

#[test]
fn store_remove_and_update() {
    let mut inst = Instance::new(4);
    for i in 0..4 {
        inst.add_instance(record(i, 0, 10 * i as u8));
    }
    inst.remove_instance(1);
    assert_eq!(inst.instance_count(), 3);
    assert_eq!(inst.get_instance(1).unwrap(), record(2, 0, 20));
    assert_eq!(inst.capacity(), 4);
    inst.update_instance_color(0, &Rgba::new(1, 2, 3, 4));
    assert_eq!(inst.get_instance(0).unwrap().color, Rgba::new(1, 2, 3, 4));
    inst.update_instance_transform(2, Transform::from_translation((7, 7)));
    assert_eq!(inst.get_instance(2).unwrap().transform, Transform { translation: (7, 7), scale: 1 });
    inst.update_instance(1, record(-5, -5, 99));
    let r = inst.get_instance(1).unwrap();
    assert_eq!(r.transform.translation, (-5, -5));
    assert_eq!(r.color, Rgba::new(20, 20, 20, 255));
    let plan = inst.draw();
    assert!(plan.upload);
    assert_eq!(plan.realloc, None);
    assert_eq!(plan.instance_count, 3);
}

#[test]
fn instance_data_accessors() {
    let mut d = record(1, 2, 3);
    assert_eq!(d.as_transform(), Transform { translation: (1, 2), scale: 32 });
    d.set_transform(Transform::from_translation((4, 4)));
    assert_eq!(d.transform.translation, (4, 4));
    assert_eq!(d.color, Rgba::new(3, 3, 3, 255));
}

#[test]
fn brush_sizes_cycle() {
    assert_eq!(BrushSize::Small.next(), BrushSize::Medium);
    assert_eq!(BrushSize::Huge.next(), BrushSize::Small);
    assert_eq!(BrushSize::Small.previous(), BrushSize::Huge);
    assert_eq!(BrushSize::Large.previous(), BrushSize::Medium);
    let mut s = BrushSize::Medium;
    for _ in 0..4 {
        s = s.next();
    }
    assert_eq!(s, BrushSize::Medium);
}

#[test]
fn brush_offsets() {
    assert_eq!(BrushSize::Small.offsets(), vec![(0, 0)]);
    assert_eq!(BrushSize::Medium.offsets(), vec![(0, 0), (1, 0), (0, 1), (1, 1)]);
    assert_eq!(BrushSize::Large.offsets().len(), 9);
    let huge = BrushSize::Huge.offsets();
    assert_eq!(huge.len(), 169);
    assert_eq!(huge[0], (-6, -6));
    assert_eq!(huge[1], (-6, -5));
    assert_eq!(huge[168], (6, 6));
}

#[test]
fn brush_spawns_and_removes() {
    let mut s = Sandbox::with_config(Instance::new(4), quiet_config(), 1);
    s.insert_cell((11, 11), CellKind::Stone);
    let mut b = Brush::new();
    assert_eq!(b.size, BrushSize::Small);
    assert_eq!(b.kind, CellKind::Sand);
    b.size = BrushSize::Large;
    b.kind = CellKind::Water;
    b.spawn(&mut s, (10, 10));
    assert_eq!(s.mesh_instance().instance_count(), 9);
    assert_eq!(s.get_cell((11, 11)).unwrap().kind, CellKind::Stone);
    assert_eq!(s.get_cell((12, 12)).unwrap().kind, CellKind::Water);
    b.size = BrushSize::Medium;
    b.remove(&mut s, (10, 10));
    assert_eq!(s.mesh_instance().instance_count(), 5);
    assert!(!s.occupied(&(11, 11)));
    assert!(s.occupied(&(12, 12)));
}

#[test]
fn attributes() {
    assert_eq!(AttributeType::Position.name(), "position");
    assert_eq!(AttributeType::Color.name(), "color");
    assert_eq!(AttributeType::Position.size(), 3);
    assert_eq!(AttributeType::Color.size(), 4);
    let a = VertexAttribute::new(&AttributeType::Color);
    assert_eq!(a.name, "color");
    assert_eq!(a.size, 4);
    assert_eq!(a.attribute_type(), AttributeType::Color);
}

#[test]
fn window_config_builders() {
    let c = WindowConfig::default();
    assert_eq!((c.width, c.height, c.title), (800, 600, "Paper Window"));
    assert!(!c.resizable && c.vsync && !c.debug);
    let c = c
        .with_title("Falling Sand")
        .with_vsync(false)
        .with_size((1280, 720))
        .with_resizable(true)
        .with_samples(Samples::X4)
        .with_mode(WindowMode::Fullscreen)
        .with_width(1000)
        .with_height(500);
    assert_eq!((c.width, c.height, c.title), (1000, 500, "Falling Sand"));
    assert!(c.resizable && !c.vsync);
    assert_eq!(c.samples, Samples::X4);
    assert_eq!(c.mode, WindowMode::Fullscreen);
}

#[test]
fn samples() {
    assert_eq!(Samples::default(), Samples::Disabled);
    assert_eq!(Samples::Disabled.to_glfw_samples(), None);
    assert_eq!(Samples::X2.to_glfw_samples(), Some(2));
    assert_eq!(Samples::X8.to_glfw_samples(), Some(8));
    assert_eq!(Samples::X16.to_glfw_samples(), Some(16));
}

#[test]
fn flatten_concatenates_in_order() {
    let v = flatten(vec![[1, 2, 3], [4, 5, 6]]);
    assert_eq!(v, vec![1, 2, 3, 4, 5, 6]);
    let empty: Vec<[u8; 2]> = Vec::new();
    assert!(flatten(empty).is_empty());
    assert_eq!([7u32, 8].flatten(), vec![7, 8]);
}

#[test]
fn colour_from_hex() {
    assert_eq!(Rgba::hex(0x10101AFF), Rgba::new(0x10, 0x10, 0x1A, 0xFF));
    assert_eq!(Rgba::hex(0xFF000080), Rgba::new(255, 0, 0, 128));
    assert_eq!(Rgba::rgb(1, 2, 3), Rgba::new(1, 2, 3, 255));
}
