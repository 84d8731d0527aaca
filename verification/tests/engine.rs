use lattice_flow::grid::{get, index_of, put};
use lattice_flow::lattice::filled;
use lattice_flow::{
    Cell, Config, ConfigError, DrawMode, IndexError, Lattice, Relaxed, ONE_BITS, ZERO_BITS,
};

fn b(v: f64) -> u64 {
    v.to_bits()
}

fn f(v: u64) -> f64 {
    f64::from_bits(v)
}

fn rate(viscosity: u64) -> u64 {
    b(1.0 / (3.0 * f(viscosity) + 0.5))
}

fn moments(ux: f64, uy: f64, rho: f64) -> Cell {
    let four9ths = 4.0 / 9.0;
    let one9th = 1.0 / 9.0;
    let one36th = 1.0 / 36.0;
    let ux3 = 3.0 * ux;
    let uy3 = 3.0 * uy;
    let ux2 = ux * ux;
    let uy2 = uy * uy;
    let uxuy2 = 2.0 * ux * uy;
    let u2 = ux2 + uy2;
    let u215 = 1.5 * u2;
    Cell::new(
        b(four9ths * rho * (1.0 - u215)),
        b(one9th * rho * (1.0 + ux3 + 4.5 * ux2 - u215)),
        b(one9th * rho * (1.0 + uy3 + 4.5 * uy2 - u215)),
        b(one9th * rho * (1.0 - ux3 + 4.5 * ux2 - u215)),
        b(one9th * rho * (1.0 - uy3 + 4.5 * uy2 - u215)),
        b(one36th * rho * (1.0 + ux3 + uy3 + 4.5 * (u2 + uxuy2) - u215)),
        b(one36th * rho * (1.0 - ux3 + uy3 + 4.5 * (u2 - uxuy2) - u215)),
        b(one36th * rho * (1.0 - ux3 - uy3 + 4.5 * (u2 + uxuy2) - u215)),
        b(one36th * rho * (1.0 + ux3 - uy3 + 4.5 * (u2 - uxuy2) - u215)),
    )
}

// The equilibrium of initialisation and of the boundary: the y-velocity
// enters negated.
fn equilibrium(ux: u64, uy: u64, rho: u64) -> Cell {
    moments(f(ux), -f(uy), f(rho))
}

fn rho_of(c: &Cell) -> f64 {
    f(c.c) + f(c.e) + f(c.n) + f(c.w) + f(c.s) + f(c.ne) + f(c.nw) + f(c.sw) + f(c.se)
}

fn ux_of(c: &Cell) -> f64 {
    let rho = rho_of(c);
    if rho != 0.0 {
        (f(c.e) + f(c.ne) + f(c.se) - f(c.w) - f(c.nw) - f(c.sw)) / rho
    } else {
        0.0
    }
}

fn uy_of(c: &Cell) -> f64 {
    let rho = rho_of(c);
    if rho != 0.0 {
        (f(c.s) + f(c.sw) + f(c.se) - f(c.n) - f(c.ne) - f(c.nw)) / rho
    } else {
        0.0
    }
}

// The relaxation of the collision step, towards the equilibrium of the
// cell's own density and velocity.
fn relax(c: Cell, omega: u64) -> Relaxed {
    let rho = rho_of(&c);
    let ux = ux_of(&c);
    let uy = uy_of(&c);
    let eq = moments(ux, -uy, rho);
    let o = f(omega);
    let mix = |old: u64, target: u64| b(f(old) + o * (f(target) - f(old)));
    Relaxed {
        rho: b(rho),
        ux: b(ux),
        uy: b(uy),
        cell: Cell::new(
            mix(c.c, eq.c),
            mix(c.e, eq.e),
            mix(c.n, eq.n),
            mix(c.w, eq.w),
            mix(c.s, eq.s),
            mix(c.ne, eq.ne),
            mix(c.nw, eq.nw),
            mix(c.sw, eq.sw),
            mix(c.se, eq.se),
        ),
    }
}

fn curl_of(uy_east: u64, uy_west: u64, ux_south: u64, ux_north: u64) -> u64 {
    b((f(uy_east) - f(uy_west)) - (f(ux_south) - f(ux_north)))
}

fn floor_cell(v: u64) -> u32 {
    f(v).floor() as u32
}

fn shift(position: u64, velocity: u64) -> u64 {
    b(f(position) + f(velocity))
}

fn past_outlet(speed: u64, x: u64, limit: u32) -> bool {
    f(speed) > 0.0 && f(x) > limit as f64
}

fn coord(v: u32) -> u64 {
    b(v as f64)
}

fn config(width: u32, height: u32, steps: u8, speed: f64, mode: DrawMode) -> Config {
    Config::new(width, height, steps, b(speed), mode, b(0.02), rate).unwrap()
}

fn engine(width: u32, height: u32, steps: u8, speed: f64) -> Lattice {
    Lattice::new(config(width, height, steps, speed, DrawMode::Speed), &equilibrium)
}

fn frame(lattice: &mut Lattice) {
    lattice.update(&equilibrium, &relax, &curl_of, &floor_cell, &shift, &past_outlet);
}

// A cell whose nine populations tell the site and the direction apart.
fn tagged(i: usize) -> Cell {
    let t = (i as u64) * 10;
    Cell::new(t, t + 1, t + 2, t + 3, t + 4, t + 5, t + 6, t + 7, t + 8)
}

fn tagged_engine(width: u32, height: u32) -> Lattice {
    let mut lattice = engine(width, height, 1, 0.0);
    for i in 0..(width * height) as usize {
        lattice.set_cell(tagged(i), i).unwrap();
    }
    lattice
}

#[test]
fn bit_constants_are_zero_and_one() {
    assert_eq!(ZERO_BITS, 0.0f64.to_bits());
    assert_eq!(ONE_BITS, 1.0f64.to_bits());
}

#[test]
fn cell_new_keeps_the_order_of_its_arguments() {
    let c = Cell::new(1, 2, 3, 4, 5, 6, 7, 8, 9);
    assert_eq!((c.c, c.e, c.n, c.w, c.s), (1, 2, 3, 4, 5));
    assert_eq!((c.ne, c.nw, c.sw, c.se), (6, 7, 8, 9));
    assert_eq!(Cell::default(), Cell::new(0, 0, 0, 0, 0, 0, 0, 0, 0));
}

#[test]
fn config_derives_the_relaxation_rate() {
    let cfg = config(10, 10, 1, 0.1, DrawMode::Curl);
    assert_eq!(f(cfg.omega()), 1.0 / (3.0 * 0.02 + 0.5));
    assert!((f(cfg.omega()) - 1.0 / 0.56).abs() < 1e-12);
    assert_eq!(cfg.width(), 10);
    assert_eq!(cfg.height(), 10);
    assert_eq!(cfg.steps_per_frame(), 1);
    assert_eq!(cfg.flow_speed(), b(0.1));
    assert_eq!(cfg.draw_mode(), DrawMode::Curl);
}

#[test]
fn config_update_viscosity_recomputes_the_rate() {
    let mut cfg = config(10, 10, 1, 0.1, DrawMode::Speed);
    cfg.update_viscosity(b(0.5), rate);
    assert_eq!(f(cfg.omega()), 0.5);
    assert_eq!(cfg.width(), 10);
    assert_eq!(cfg.flow_speed(), b(0.1));
}

#[test]
fn config_refuses_small_and_huge_grids() {
    let make = |w: u32, h: u32| Config::new(w, h, 1, b(0.1), DrawMode::Speed, b(0.02), rate);
    assert_eq!(make(1, 10).err(), Some(ConfigError::TooSmall));
    assert_eq!(make(10, 0).err(), Some(ConfigError::TooSmall));
    assert_eq!(make(0, 0).err(), Some(ConfigError::TooSmall));
    assert_eq!(make(65536, 65536).err(), Some(ConfigError::TooLarge));
    assert!(make(2, 2).is_ok());
    assert!(make(65535, 65537).is_ok());
}

#[test]
fn construction_gives_fluid_at_rest() {
    let lattice = engine(10, 10, 1, 0.1);
    assert_eq!(lattice.width(), 10);
    assert_eq!(lattice.height(), 10);
    assert_eq!(lattice.cells().len(), 100);
    assert_eq!(lattice.barrier().len(), 0);
    assert_eq!(lattice.flow_size(), 0);
    assert_eq!(f(lattice.config().omega()), 1.0 / (3.0 * 0.02 + 0.5));
    for i in 0..100 {
        assert_eq!(f(lattice.density()[i]), 1.0);
        assert_eq!(f(lattice.ux()[i]), 0.0);
        assert_eq!(f(lattice.uy()[i]), 0.0);
        assert_eq!(f(lattice.curl()[i]), 0.0);
        let c = lattice.cells()[i];
        assert_eq!(f(c.c), 4.0 / 9.0);
        assert_eq!(f(c.e), 1.0 / 9.0);
        assert_eq!(f(c.sw), 1.0 / 36.0);
        assert!((rho_of(&c) - 1.0).abs() < 1e-12);
        assert!(ux_of(&c).abs() < 1e-15);
        assert!(uy_of(&c).abs() < 1e-15);
    }
}

#[test]
fn init_flow_skips_solid_cells() {
    let mut lattice = engine(6, 6, 1, 0.0);
    lattice.add_barrier(14).unwrap();
    let before = lattice.cells()[14];
    lattice.init_flow(b(0.1), b(0.05), b(1.5), &equilibrium);
    let fill = equilibrium(b(0.1), b(0.05), b(1.5));
    for i in 0..36 {
        if i == 14 {
            assert_eq!(lattice.cells()[i], before);
            assert_eq!(f(lattice.density()[i]), 1.0);
            assert_eq!(f(lattice.ux()[i]), 0.0);
        } else {
            assert_eq!(lattice.cells()[i], fill);
            assert_eq!(f(lattice.density()[i]), 1.5);
            assert_eq!(f(lattice.ux()[i]), 0.1);
            assert_eq!(f(lattice.uy()[i]), 0.05);
        }
    }
}

#[test]
fn initial_equilibrium_negates_the_y_velocity() {
    let c = equilibrium(b(0.0), b(0.1), b(1.0));
    // With the y-velocity negated the north population is the smaller one.
    assert_eq!(f(c.n), (1.0 / 9.0) * 1.0 * (1.0 + 3.0 * -0.1 + 4.5 * (-0.1 * -0.1) - 1.5 * (-0.1 * -0.1)));
    assert!(f(c.n) < f(c.s));
}

#[test]
fn boundaries_set_the_whole_ring_and_nothing_else() {
    let mut lattice = tagged_engine(7, 5);
    lattice.set_flow_speed(b(0.12));
    lattice.set_boundaries(&equilibrium);
    let fill = equilibrium(b(0.12), ZERO_BITS, ONE_BITS);
    for y in 0..5usize {
        for x in 0..7usize {
            let i = y * 7 + x;
            if x == 0 || y == 0 || x == 6 || y == 4 {
                assert_eq!(lattice.cells()[i], fill);
            } else {
                assert_eq!(lattice.cells()[i], tagged(i));
            }
        }
    }
    // The corner opposite the origin belongs to the ring.
    assert_eq!(lattice.cells()[34], fill);
    assert_eq!(f(fill.e), (1.0 / 9.0) * (1.0 + 3.0 * 0.12 + 4.5 * (0.12 * 0.12) - 1.5 * (0.12 * 0.12)));
}

#[test]
fn streaming_takes_each_population_from_its_source() {
    let mut lattice = tagged_engine(5, 5);
    lattice.stream();
    let at = |x: usize, y: usize| y * 5 + x;
    let c = lattice.cells()[at(2, 2)];
    assert_eq!(c.c, tagged(at(2, 2)).c);
    assert_eq!(c.e, tagged(at(1, 2)).e);
    assert_eq!(c.w, tagged(at(3, 2)).w);
    assert_eq!(c.n, tagged(at(2, 1)).n);
    assert_eq!(c.s, tagged(at(2, 3)).s);
    assert_eq!(c.ne, tagged(at(1, 1)).ne);
    assert_eq!(c.nw, tagged(at(3, 1)).nw);
    assert_eq!(c.sw, tagged(at(3, 3)).sw);
    assert_eq!(c.se, tagged(at(1, 3)).se);
    // The outer ring stays.
    for i in [0usize, 3, 4, 5, 9, 20, 22, 24] {
        assert_eq!(lattice.cells()[i], tagged(i));
    }
}

#[test]
fn streaming_twice_uses_both_buffers() {
    let mut lattice = tagged_engine(5, 5);
    lattice.stream();
    lattice.stream();
    let at = |x: usize, y: usize| y * 5 + x;
    // (2, 2) takes its east population from (1, 2), which took it from the
    // ring cell (0, 2).
    assert_eq!(lattice.cells()[at(2, 2)].e, tagged(at(0, 2)).e);
    assert_eq!(lattice.cells()[at(2, 2)].c, tagged(at(2, 2)).c);
}

#[test]
fn streaming_keeps_a_uniform_field() {
    let mut lattice = engine(8, 6, 1, 0.0);
    lattice.init_flow(b(0.1), b(0.02), b(1.0), &equilibrium);
    let before: Vec<Cell> = lattice.cells().clone();
    lattice.stream();
    assert_eq!(lattice.cells(), &before);
}

#[test]
fn solid_cell_bounces_populations_back() {
    let mut lattice = tagged_engine(5, 5);
    let at = |x: usize, y: usize| y * 5 + x;
    lattice.add_barrier(at(2, 2)).unwrap();
    lattice.stream();
    let solid = tagged(at(2, 2));
    assert_eq!(lattice.cells()[at(3, 2)].e, solid.w);
    assert_eq!(lattice.cells()[at(1, 2)].w, solid.e);
    assert_eq!(lattice.cells()[at(2, 3)].n, solid.s);
    assert_eq!(lattice.cells()[at(2, 1)].s, solid.n);
    assert_eq!(lattice.cells()[at(3, 3)].ne, solid.sw);
    assert_eq!(lattice.cells()[at(1, 3)].nw, solid.se);
    assert_eq!(lattice.cells()[at(1, 1)].sw, solid.ne);
    assert_eq!(lattice.cells()[at(3, 1)].se, solid.nw);
    // The other slots of a neighbour are streamed as usual.
    assert_eq!(lattice.cells()[at(3, 2)].w, tagged(at(4, 2)).w);
    assert_eq!(lattice.cells()[at(3, 2)].c, tagged(at(3, 2)).c);
    // A ring cell next to the solid cell is written too.
    assert_eq!(lattice.cells()[at(3, 3)].e, tagged(at(2, 3)).e);
}

#[test]
fn solid_cell_next_to_the_ring_reflects_into_it() {
    let mut lattice = tagged_engine(4, 4);
    let at = |x: usize, y: usize| y * 4 + x;
    lattice.add_barrier(at(1, 1)).unwrap();
    lattice.stream();
    let solid = tagged(at(1, 1));
    assert_eq!(lattice.cells()[at(0, 1)].w, solid.e);
    assert_eq!(lattice.cells()[at(0, 0)].sw, solid.ne);
    assert_eq!(lattice.cells()[at(0, 1)].e, tagged(at(0, 1)).e);
}

#[test]
fn barrier_in_rightward_flow_reflects_after_one_update() {
    let mut lattice = engine(10, 10, 1, 0.1);
    lattice.init_flow(b(0.1), b(0.0), b(1.0), &equilibrium);
    let at = |x: usize, y: usize| y * 10 + x;
    lattice.add_barrier(at(5, 5)).unwrap();
    frame(&mut lattice);
    assert!(f(lattice.cells()[at(6, 5)].e) != 0.0);
    assert!(f(lattice.cells()[at(4, 5)].w) != 0.0);
    assert!(f(lattice.cells()[at(5, 6)].n) != 0.0);
    assert!(f(lattice.cells()[at(5, 4)].s) != 0.0);
    assert!(f(lattice.cells()[at(6, 6)].ne) != 0.0);
    assert!(f(lattice.cells()[at(4, 6)].nw) != 0.0);
    assert!(f(lattice.cells()[at(4, 4)].sw) != 0.0);
    assert!(f(lattice.cells()[at(6, 4)].se) != 0.0);
    // The flow is no longer uniform next to the solid cell.
    assert!(f(lattice.ux()[at(6, 5)]) < f(lattice.ux()[at(2, 2)]));
}

#[test]
fn add_barrier_checks_the_index() {
    let mut lattice = engine(5, 4, 1, 0.0);
    assert_eq!(lattice.add_barrier(20), Err(IndexError::OutOfRange));
    assert_eq!(lattice.add_barrier(usize::MAX), Err(IndexError::OutOfRange));
    assert_eq!(lattice.add_barrier(0), Err(IndexError::OnBoundary));
    assert_eq!(lattice.add_barrier(5), Err(IndexError::OnBoundary));
    assert_eq!(lattice.add_barrier(9), Err(IndexError::OnBoundary));
    assert_eq!(lattice.add_barrier(17), Err(IndexError::OnBoundary));
    assert_eq!(lattice.barrier().len(), 0);
    assert_eq!(lattice.add_barrier(7), Ok(()));
    assert_eq!(lattice.add_barrier(6), Ok(()));
    assert_eq!(lattice.add_barrier(7), Ok(()));
    assert_eq!(lattice.barrier(), &vec![7usize, 6]);
    assert!(lattice.is_solid(6));
    assert!(lattice.is_solid(7));
    assert!(!lattice.is_solid(8));
    assert!(!lattice.is_solid(1000));
}

#[test]
fn remove_barrier_keeps_list_and_membership_together() {
    let mut lattice = engine(6, 6, 1, 0.0);
    lattice.add_barrier(8).unwrap();
    lattice.add_barrier(14).unwrap();
    lattice.add_barrier(9).unwrap();
    assert_eq!(lattice.remove_barrier(14), Ok(()));
    assert_eq!(lattice.barrier(), &vec![8usize, 9]);
    assert!(!lattice.is_solid(14));
    assert!(lattice.is_solid(8));
    assert_eq!(lattice.remove_barrier(14), Ok(()));
    assert_eq!(lattice.barrier(), &vec![8usize, 9]);
    assert_eq!(lattice.remove_barrier(36), Err(IndexError::OutOfRange));
    assert_eq!(lattice.remove_barrier(0), Ok(()));
    assert_eq!(lattice.barrier(), &vec![8usize, 9]);
}

#[test]
fn add_barrier_leaves_the_cell_as_it_is() {
    let mut lattice = tagged_engine(5, 5);
    lattice.add_barrier(12).unwrap();
    assert_eq!(lattice.cells()[12], tagged(12));
}

#[test]
fn set_cell_overwrites_without_touching_barriers() {
    let mut lattice = engine(4, 4, 1, 0.0);
    let c = Cell::new(1, 2, 3, 4, 5, 6, 7, 8, 9);
    assert_eq!(lattice.set_cell(c, 5), Ok(()));
    assert_eq!(lattice.cells()[5], c);
    assert_eq!(lattice.set_cell(c, 0), Ok(()));
    assert_eq!(lattice.cells()[0], c);
    assert_eq!(lattice.barrier().len(), 0);
    assert!(!lattice.is_solid(5));
    assert_eq!(lattice.set_cell(c, 16), Err(IndexError::OutOfRange));
    assert_eq!(lattice.cells().len(), 16);
}

#[test]
fn set_cell_writes_the_active_buffer_after_a_stream() {
    let mut lattice = tagged_engine(4, 4);
    lattice.stream();
    let c = Cell::new(1, 2, 3, 4, 5, 6, 7, 8, 9);
    lattice.set_cell(c, 5).unwrap();
    assert_eq!(lattice.cells()[5], c);
}

#[test]
fn collision_keeps_a_cell_at_equilibrium() {
    let mut lattice = engine(6, 6, 1, 0.0);
    // An equilibrium of the collision step itself: velocity (0.08, 0),
    // density 1.1.
    let eq = moments(0.08, 0.0, 1.1);
    for i in 0..36 {
        lattice.set_cell(eq, i).unwrap();
    }
    for viscosity in [0.005, 0.02, 0.2] {
        lattice.set_viscosity(b(viscosity), rate);
        lattice.collide(&relax, &curl_of);
        for i in 0..36 {
            let c = lattice.cells()[i];
            for (got, want) in [(c.c, eq.c), (c.e, eq.e), (c.n, eq.n), (c.w, eq.w), (c.s, eq.s),
                (c.ne, eq.ne), (c.nw, eq.nw), (c.sw, eq.sw), (c.se, eq.se)] {
                assert!((f(got) - f(want)).abs() < 1e-12);
            }
        }
    }
}

#[test]
fn collision_relaxes_towards_equilibrium_by_the_rate() {
    let mut lattice = engine(4, 4, 1, 0.0);
    lattice.set_viscosity(b(0.5 / 3.0), rate);
    assert_eq!(f(lattice.config().omega()), 1.0);
    let c = Cell::new(b(0.5), b(0.2), b(0.1), b(0.05), b(0.05), b(0.025), b(0.025), b(0.025), b(0.025));
    lattice.set_cell(c, 5).unwrap();
    lattice.collide(&relax, &curl_of);
    let rho = rho_of(&c);
    let ux = ux_of(&c);
    let uy = uy_of(&c);
    assert_eq!(f(lattice.density()[5]), rho);
    assert_eq!(f(lattice.ux()[5]), ux);
    assert_eq!(f(lattice.uy()[5]), uy);
    // With rate 1 the cell lands on its equilibrium.
    let u215 = 1.5 * (ux * ux + uy * uy);
    let want_c = (4.0 / 9.0) * rho * (1.0 - u215);
    let want_e = (1.0 / 9.0) * rho * (1.0 + 3.0 * ux + 4.5 * ux * ux - u215);
    assert!((f(lattice.cells()[5].c) - want_c).abs() < 1e-15);
    assert!((f(lattice.cells()[5].e) - want_e).abs() < 1e-15);
    // In the collision step a positive y-velocity feeds the south population.
    let want_s = (1.0 / 9.0) * rho * (1.0 + 3.0 * uy + 4.5 * uy * uy - u215);
    assert!((f(lattice.cells()[5].s) - want_s).abs() < 1e-15);
}

#[test]
fn collision_skips_ring_and_solid_cells() {
    let mut lattice = tagged_engine(5, 5);
    lattice.add_barrier(12).unwrap();
    let pick = |_c: Cell, _omega: u64| Relaxed { rho: 77, ux: 78, uy: 79, cell: Cell::new(9, 9, 9, 9, 9, 9, 9, 9, 9) };
    lattice.collide(&pick, &curl_of);
    for y in 0..5usize {
        for x in 0..5usize {
            let i = y * 5 + x;
            let fluid = x > 0 && y > 0 && x < 4 && y < 4 && i != 12;
            if fluid {
                assert_eq!(lattice.cells()[i], Cell::new(9, 9, 9, 9, 9, 9, 9, 9, 9));
                assert_eq!(lattice.density()[i], 77);
                assert_eq!(lattice.ux()[i], 78);
                assert_eq!(lattice.uy()[i], 79);
            } else {
                assert_eq!(lattice.cells()[i], tagged(i));
                assert_eq!(lattice.density()[i], ONE_BITS);
                assert_eq!(lattice.ux()[i], ZERO_BITS);
            }
        }
    }
}

#[test]
fn curl_reads_the_four_neighbours_in_order() {
    let mut lattice = tagged_engine(5, 5);
    lattice.set_draw_mode(DrawMode::Curl);
    assert!(lattice.draw_mode() == DrawMode::Curl);
    // The velocities reported for a cell are two of its own tags.
    let pick = |c: Cell, _omega: u64| Relaxed { rho: c.c, ux: c.e, uy: c.n, cell: c };
    let quiet = |_e: u64, _w: u64, _s: u64, _n: u64| 0u64;
    lattice.set_draw_mode(DrawMode::Speed);
    lattice.collide(&pick, &quiet);
    lattice.set_draw_mode(DrawMode::Curl);
    let list = |e: u64, w: u64, s: u64, n: u64| ((e * 1000 + w) * 1000 + s) * 1000 + n;
    lattice.collide(&pick, &list);
    let at = |x: usize, y: usize| y * 5 + x;
    let uy = |i: usize| tagged(i).n;
    let ux = |i: usize| tagged(i).e;
    assert_eq!(
        lattice.curl()[at(2, 2)],
        ((uy(at(3, 2)) * 1000 + uy(at(1, 2))) * 1000 + ux(at(2, 3))) * 1000 + ux(at(2, 1))
    );
    // Next to the ring the field still holds what construction put there.
    assert_eq!(
        lattice.curl()[at(1, 1)],
        ((uy(at(2, 1)) * 1000 + ZERO_BITS) * 1000 + ux(at(1, 2))) * 1000 + ZERO_BITS
    );
}

#[test]
fn curl_is_left_alone_in_other_draw_modes() {
    let mut lattice = engine(5, 5, 1, 0.0);
    let loud = |_e: u64, _w: u64, _s: u64, _n: u64| 5u64;
    lattice.collide(&relax, &loud);
    for i in 0..25 {
        assert_eq!(lattice.curl()[i], ZERO_BITS);
    }
    lattice.set_draw_mode(DrawMode::Curl);
    lattice.collide(&relax, &loud);
    assert_eq!(lattice.curl()[12], 5);
    assert_eq!(lattice.curl()[0], ZERO_BITS);
}

#[test]
fn curl_of_a_uniform_flow_is_zero() {
    let mut lattice = Lattice::new(config(8, 8, 2, 0.1, DrawMode::Curl), &equilibrium);
    lattice.init_flow(b(0.1), b(0.0), b(1.0), &equilibrium);
    frame(&mut lattice);
    for i in 0..64 {
        assert!(f(lattice.curl()[i]).abs() < 1e-12);
    }
}

#[test]
fn seeding_places_tracers_on_every_tenth_site() {
    let mut lattice = engine(35, 45, 1, 0.1);
    lattice.add_barrier(20 * 35 + 20).unwrap();
    lattice.init_flow_particles(&coord);
    let xs: Vec<f64> = lattice.flow_particles_x().iter().map(|v| f(*v)).collect();
    let ys: Vec<f64> = lattice.flow_particles_y().iter().map(|v| f(*v)).collect();
    assert_eq!(xs, vec![10.0, 20.0, 10.0, 10.0, 20.0]);
    assert_eq!(ys, vec![10.0, 10.0, 20.0, 30.0, 30.0]);
    assert_eq!(lattice.flow_size(), 5);
    lattice.init_flow_particles(&coord);
    assert_eq!(lattice.flow_size(), 10);
    assert_eq!(f(lattice.flow_particles_x()[5]), 10.0);
    lattice.clear_flow_particles();
    assert_eq!(lattice.flow_size(), 0);
    assert_eq!(lattice.flow_particles_y().len(), 0);
    assert_eq!(lattice.cells().len(), 35 * 45);
}

#[test]
fn seeding_a_small_grid_places_nothing() {
    let mut lattice = engine(19, 40, 1, 0.1);
    lattice.init_flow_particles(&coord);
    assert_eq!(lattice.flow_size(), 0);
    let mut lattice = engine(40, 9, 1, 0.1);
    lattice.init_flow_particles(&coord);
    assert_eq!(lattice.flow_size(), 0);
}

#[test]
fn tracers_move_with_the_local_velocity() {
    let mut lattice = engine(30, 30, 1, 0.1);
    lattice.init_flow(b(0.1), b(0.0), b(1.0), &equilibrium);
    lattice.init_flow_particles(&coord);
    assert_eq!(lattice.flow_size(), 4);
    lattice.move_particles(&floor_cell, &shift, &past_outlet);
    assert_eq!(f(lattice.flow_particles_x()[0]), 10.0 + 0.1);
    assert_eq!(f(lattice.flow_particles_y()[0]), 10.0);
    assert_eq!(f(lattice.flow_particles_x()[3]), 20.0 + 0.1);
    assert_eq!(f(lattice.flow_particles_y()[3]), 20.0);
}

#[test]
fn tracer_past_the_outlet_is_sent_back_to_the_inlet() {
    let mut lattice = engine(12, 12, 1, 0.1);
    lattice.init_flow(b(0.1), b(0.03), b(1.0), &equilibrium);
    // Past the outlet and outside the grid: x is reset, y stays.
    let wrap = past_outlet(b(0.1), b(12.5), 10);
    assert!(wrap);
    let to = lattice.advance_tracer(b(12.5), b(4.25), floor_cell(b(12.5)), floor_cell(b(4.25)), wrap, &shift);
    assert_eq!(f(to.0), 1.0);
    assert_eq!(f(to.1), 4.25);
    // Past the outlet but still inside the grid: y moves with the flow.
    let wrap = past_outlet(b(0.1), b(10.5), 10);
    assert!(wrap);
    let to = lattice.advance_tracer(b(10.5), b(4.25), 10, 4, wrap, &shift);
    assert_eq!(f(to.0), 1.0);
    assert_eq!(f(to.1), 4.25 + 0.03);
    // Exactly at width - 2 nothing is reset.
    assert!(!past_outlet(b(0.1), b(10.0), 10));
    let to = lattice.advance_tracer(b(10.0), b(4.25), 10, 4, false, &shift);
    assert_eq!(f(to.0), 10.0 + 0.1);
    // Without inflow nothing is reset either.
    assert!(!past_outlet(b(0.0), b(11.5), 10));
    // Outside the grid and not past the outlet the tracer stays.
    let to = lattice.advance_tracer(b(3.0), b(40.0), 3, 40, false, &shift);
    assert_eq!((f(to.0), f(to.1)), (3.0, 40.0));
}

#[test]
fn tracers_are_reinjected_during_a_frame() {
    let mut lattice = engine(30, 30, 1, 0.1);
    lattice.init_flow_particles(&coord);
    let always = |_speed: u64, _x: u64, limit: u32| limit == 28;
    lattice.move_particles(&floor_cell, &shift, &always);
    for k in 0..lattice.flow_size() {
        assert_eq!(f(lattice.flow_particles_x()[k]), 1.0);
    }
    assert_eq!(f(lattice.flow_particles_y()[0]), 10.0);
    assert_eq!(f(lattice.flow_particles_y()[3]), 20.0);
}

#[test]
fn frame_without_steps_only_sets_the_ring() {
    let mut lattice = tagged_engine(5, 5);
    lattice.set_steps_per_frame(0);
    lattice.set_flow_speed(b(0.1));
    frame(&mut lattice);
    let fill = equilibrium(b(0.1), ZERO_BITS, ONE_BITS);
    for y in 0..5usize {
        for x in 0..5usize {
            let i = y * 5 + x;
            if x == 0 || y == 0 || x == 4 || y == 4 {
                assert_eq!(lattice.cells()[i], fill);
            } else {
                assert_eq!(lattice.cells()[i], tagged(i));
            }
        }
    }
    assert_eq!(lattice.density()[12], ONE_BITS);
}

#[test]
fn frame_runs_the_steps_in_order() {
    let mut one = engine(12, 9, 3, 0.1);
    one.add_barrier(4 * 12 + 5).unwrap();
    let mut other = engine(12, 9, 3, 0.1);
    other.add_barrier(4 * 12 + 5).unwrap();
    frame(&mut one);
    other.set_boundaries(&equilibrium);
    for _ in 0..3 {
        other.stream();
        other.collide(&relax, &curl_of);
    }
    assert_eq!(one.cells(), other.cells());
    assert_eq!(one.density(), other.density());
    assert_eq!(one.ux(), other.ux());
    assert_eq!(one.uy(), other.uy());
}

#[test]
fn frame_moves_tracers_once_per_step() {
    let mut lattice = engine(30, 30, 2, 0.0);
    lattice.init_flow_particles(&coord);
    let count = |position: u64, _velocity: u64| b(f(position) + 1.0);
    lattice.update(&equilibrium, &relax, &curl_of, &floor_cell, &count, &past_outlet);
    assert_eq!(f(lattice.flow_particles_x()[0]), 12.0);
    assert_eq!(f(lattice.flow_particles_y()[0]), 12.0);
}

#[test]
fn mass_is_conserved_without_inflow() {
    let total = |l: &Lattice| l.cells().iter().map(rho_of).sum::<f64>();
    let mut quiet = engine(16, 12, 4, 0.0);
    let start = total(&quiet);
    for _ in 0..50 {
        frame(&mut quiet);
        assert!((total(&quiet) - start).abs() < 1e-9);
    }
    assert!((start - 192.0).abs() < 1e-9);
}

#[test]
fn setters_change_one_parameter_each() {
    let mut lattice = engine(6, 6, 1, 0.1);
    lattice.set_draw_mode(DrawMode::Density);
    assert!(lattice.draw_mode() == DrawMode::Density);
    lattice.set_viscosity(b(0.1), rate);
    assert_eq!(f(lattice.config().omega()), 1.0 / (3.0 * 0.1 + 0.5));
    lattice.set_flow_speed(b(0.25));
    assert_eq!(f(lattice.config().flow_speed()), 0.25);
    lattice.set_steps_per_frame(7);
    assert_eq!(lattice.config().steps_per_frame(), 7);
    assert_eq!(lattice.width(), 6);
    assert_eq!(lattice.height(), 6);
    assert!(lattice.draw_mode() == DrawMode::Density);
}

#[test]
fn grid_helpers_address_cells_row_by_row() {
    assert_eq!(index_of(7, 5, 0, 0), 0);
    assert_eq!(index_of(7, 5, 3, 2), 17);
    assert_eq!(index_of(7, 5, 6, 4), 34);
    let mut v: Vec<u8> = filled(35, 9);
    assert_eq!(v, vec![9u8; 35]);
    put(&mut v, 7, 5, 3, 2, 4);
    assert_eq!(v[17], 4);
    assert_eq!(v.iter().filter(|x| **x == 9).count(), 34);
    assert_eq!(get(&v, 7, 5, 3, 2), 4);
    assert_eq!(get(&v, 7, 5, 2, 3), 9);
    assert_eq!(filled(0, 1u64).len(), 0);
}
