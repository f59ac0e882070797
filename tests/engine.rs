use particle_life::camera::{Camera, Steer, MAX_SCALE, MIN_SCALE, ONE};
use particle_life::circle::Circle;
use particle_life::config::{Boundary, Config, SetupError};
use particle_life::fixed::{fdiv, isqrt};
use particle_life::matrix::InteractionMatrix;
use particle_life::palette::{color_of, palette};
use particle_life::physics::{advance_axis, pull, step, DT_MAX};
use particle_life::scheduler::{clamp_dt, Command, Simulation};
use particle_life::world::{World, INITIAL_SPREAD, RANDOMIZE_SPREAD};

fn small_config(particles: usize, colors: usize, boundary: Boundary) -> Config {
    Config {
        particles,
        colors,
        half_extent: 3_000_000,
        radius: 125_000,
        interaction_radius: 2_000_000,
        repulsion_radius: 300_000,
        force: 50_000_000,
        damping: 2_000,
        max_speed: 20_000_000,
        boundary,
    }
}

fn still(color: usize, x: i64, y: i64) -> Circle {
    Circle { color, rad: 125_000, pos: [x, y], vel: [0, 0] }
}

fn mean_distance(cs: &[Circle]) -> f64 {
    let mut total = 0.0;
    let mut n = 0.0;
    for i in 0..cs.len() {
        for j in (i + 1)..cs.len() {
            let dx = (cs[i].pos[0] - cs[j].pos[0]) as f64;
            let dy = (cs[i].pos[1] - cs[j].pos[1]) as f64;
            total += (dx * dx + dy * dy).sqrt();
            n += 1.0;
        }
    }
    total / n
}

#[test]
fn matrix_entries_stay_in_range_across_randomize() {
    let draws = InteractionMatrix::draw(36, INITIAL_SPREAD);
    assert_eq!(draws.len(), 36);
    let mut m = InteractionMatrix::from_draws(6, &draws);
    for i in 0..6 {
        for j in 0..6 {
            let c = m.get(i, j);
            assert!(-INITIAL_SPREAD <= c && c <= INITIAL_SPREAD);
        }
    }
    for _ in 0..5 {
        m.randomize(RANDOMIZE_SPREAD);
        assert_eq!(m.colors(), 6);
        for i in 0..6 {
            for j in 0..6 {
                let c = m.get(i, j);
                assert!(-RANDOMIZE_SPREAD <= c && c <= RANDOMIZE_SPREAD);
            }
        }
    }
}

#[test]
fn randomize_keeps_shape_and_draws_fresh_values() {
    let mut m = InteractionMatrix::uniform(4, 1000, 1000);
    let draws = m.randomize(RANDOMIZE_SPREAD);
    assert_eq!(m.colors(), 4);
    assert_eq!(draws.len(), 16);
    for i in 0..4 {
        for j in 0..4 {
            assert_eq!(m.get(i, j), draws[i * 4 + j]);
        }
    }
    let mut all_max = true;
    for i in 0..4 {
        for j in 0..4 {
            if m.get(i, j) != 1000 {
                all_max = false;
            }
        }
    }
    assert!(!all_max);
}

#[test]
fn world_randomize_leaves_particles() {
    let mut w = World::new(small_config(20, 3, Boundary::Wrap)).unwrap();
    let before = w.circles().clone();
    let draws = w.randomize();
    assert_eq!(w.circles(), &before);
    assert_eq!(w.matrix().colors(), 3);
    assert_eq!(draws.len(), 9);
    assert_eq!(w.matrix().get(2, 1), draws[7]);
}

#[test]
fn uniform_and_set() {
    let mut m = InteractionMatrix::uniform(3, 800, -200);
    assert_eq!(m.get(1, 1), 800);
    assert_eq!(m.get(0, 2), -200);
    m.set(0, 2, 300);
    assert_eq!(m.get(0, 2), 300);
    assert_eq!(m.get(2, 0), -200);
}

#[test]
fn repelling_population_disperses() {
    let cfg = Config { half_extent: 10_000_000, ..small_config(5, 1, Boundary::Reflect) };
    let pts = [(0, 0), (400_000, 0), (0, 400_000), (-300_000, -200_000), (200_000, -400_000)];
    let circles: Vec<Circle> = pts.iter().map(|&(x, y)| still(0, x, y)).collect();
    let m = InteractionMatrix::uniform(1, -500, -500);
    let mut w = World::from_parts(cfg, circles, m).unwrap();
    let mut last = mean_distance(w.circles());
    for _ in 0..30 {
        w.tick(5000);
        let d = mean_distance(w.circles());
        assert!(d > last);
        last = d;
    }
}

#[test]
fn attracting_population_clusters() {
    let cfg = Config { half_extent: 10_000_000, ..small_config(5, 1, Boundary::Reflect) };
    let pts = [(0, 0), (1_500_000, 0), (0, 1_500_000), (-1_200_000, -600_000), (900_000, -1_100_000)];
    let circles: Vec<Circle> = pts.iter().map(|&(x, y)| still(0, x, y)).collect();
    let m = InteractionMatrix::uniform(1, 1000, 1000);
    let mut w = World::from_parts(cfg, circles, m).unwrap();
    let mut last = mean_distance(w.circles());
    for _ in 0..30 {
        w.tick(5000);
        let d = mean_distance(w.circles());
        assert!(d < last);
        last = d;
    }
}

#[test]
fn wrap_reenters_opposite_edge() {
    let cfg = small_config(1, 1, Boundary::Wrap);
    let h = cfg.half_extent;
    let (x, v) = advance_axis(h - 10, 20_000_000, 0, DT_MAX, &cfg);
    assert_eq!(v, 19_800_000);
    assert_eq!(x, -h + 98_990);
    let (x, _) = advance_axis(-h + 5, -20_000_000, 0, DT_MAX, &cfg);
    assert!(x >= h - 100_000 && x < h);
}

#[test]
fn reflect_reverses_outward_velocity() {
    let cfg = small_config(1, 1, Boundary::Reflect);
    let h = cfg.half_extent;
    let (x, v) = advance_axis(h - 10, 20_000_000, 0, DT_MAX, &cfg);
    assert_eq!(x, h);
    assert_eq!(v, -19_800_000);
    let (x, v) = advance_axis(-h, -1_000_000, 0, DT_MAX, &cfg);
    assert_eq!(x, -h);
    assert!(v > 0);
}

#[test]
fn particles_never_leave_domain() {
    for boundary in [Boundary::Wrap, Boundary::Reflect] {
        let cfg = small_config(40, 3, boundary);
        let mut w = World::new(cfg).unwrap();
        for _ in 0..50 {
            w.tick(DT_MAX);
        }
        for c in w.circles() {
            for k in 0..2 {
                assert!(c.pos[k] >= -cfg.half_extent && c.pos[k] <= cfg.half_extent);
                if boundary == Boundary::Wrap {
                    assert!(c.pos[k] < cfg.half_extent);
                }
            }
        }
    }
}

#[test]
fn zero_tick_changes_nothing() {
    let mut w = World::new(small_config(50, 3, Boundary::Wrap)).unwrap();
    let before = w.circles().clone();
    w.tick(0);
    assert_eq!(w.circles(), &before);
    let after = step(&before, w.matrix(), &w.settings(), 0);
    assert_eq!(after, before);
}

#[test]
fn same_colors_cluster_after_five_hundred_steps() {
    let cfg = small_config(100, 3, Boundary::Reflect);
    let spawned = World::new(cfg).unwrap();
    let circles = spawned.circles().clone();
    let m = InteractionMatrix::uniform(3, 800, -200);
    let mut w = World::from_parts(cfg, circles, m).unwrap();
    for _ in 0..500 {
        w.tick(5000);
    }
    let cs = w.circles();
    let (mut intra, mut ni, mut inter, mut nx) = (0.0, 0.0, 0.0, 0.0);
    for i in 0..cs.len() {
        for j in (i + 1)..cs.len() {
            let dx = (cs[i].pos[0] - cs[j].pos[0]) as f64;
            let dy = (cs[i].pos[1] - cs[j].pos[1]) as f64;
            let d = (dx * dx + dy * dy).sqrt();
            if cs[i].color == cs[j].color {
                intra += d;
                ni += 1.0;
            } else {
                inter += d;
                nx += 1.0;
            }
        }
    }
    assert!(intra / ni < 0.95 * (inter / nx));
}

#[test]
fn paused_frames_freeze_particles_but_not_camera() {
    let mut sim = Simulation::new(small_config(30, 3, Boundary::Wrap)).unwrap();
    assert!(sim.is_paused());
    let before = sim.world().circles().clone();
    let cam0 = sim.camera();
    let steer = Steer { up: true, down: false, left: true, right: false, zoom_in: true, zoom_out: false };
    for _ in 0..10 {
        sim.frame(16_000, steer);
        assert_eq!(sim.world().circles(), &before);
    }
    let cam = sim.camera();
    assert_eq!(cam.pos[0], cam0.pos[0] + 10 * 100_000);
    assert_eq!(cam.pos[1], cam0.pos[1] - 10 * 100_000);
    assert!(cam.scale > cam0.scale);
    sim.command(Command::TogglePause);
    assert!(!sim.is_paused());
    sim.frame(16_000, Steer { up: false, down: false, left: false, right: false, zoom_in: false, zoom_out: false });
    assert_ne!(sim.world().circles(), &before);
}

#[test]
fn randomize_command_keeps_pause_state() {
    let mut sim = Simulation::new(small_config(10, 2, Boundary::Wrap)).unwrap();
    let before = sim.world().circles().clone();
    let draws = sim.command(Command::Randomize);
    assert!(sim.is_paused());
    assert_eq!(draws.len(), 4);
    assert_eq!(sim.world().matrix().get(1, 0), draws[2]);
    assert!(sim.command(Command::TogglePause).is_empty());
    assert_eq!(sim.world().circles(), &before);
    assert_eq!(sim.world().matrix().colors(), 2);
}

#[test]
fn config_errors() {
    let ok = small_config(10, 3, Boundary::Wrap);
    assert_eq!(ok.validate(), Ok(()));
    assert_eq!(Config::standard().validate(), Ok(()));
    assert_eq!(Config { particles: 0, ..ok }.validate(), Err(SetupError::NoParticles));
    assert_eq!(Config { particles: 100_001, ..ok }.validate(), Err(SetupError::TooManyParticles));
    assert_eq!(Config { colors: 0, ..ok }.validate(), Err(SetupError::NoColors));
    assert_eq!(Config { colors: 1025, ..ok }.validate(), Err(SetupError::TooManyColors));
    assert_eq!(Config { half_extent: 0, ..ok }.validate(), Err(SetupError::BadExtent));
    assert_eq!(Config { radius: -1, ..ok }.validate(), Err(SetupError::BadRadius));
    assert_eq!(Config { repulsion_radius: 2_000_000, ..ok }.validate(), Err(SetupError::BadInteractionRadii));
    assert_eq!(Config { force: -1, ..ok }.validate(), Err(SetupError::BadForce));
    assert_eq!(Config { damping: 100_001, ..ok }.validate(), Err(SetupError::BadDamping));
    assert_eq!(Config { damping: 0, ..ok }.validate(), Err(SetupError::BadDamping));
    assert_eq!(Config { max_speed: -5, ..ok }.validate(), Err(SetupError::BadSpeed));
    assert_eq!(World::new(Config { colors: 0, ..ok }).err(), Some(SetupError::NoColors));
    assert_eq!(Simulation::new(Config { particles: 0, ..ok }).err(), Some(SetupError::NoParticles));
}

#[test]
fn from_parts_errors() {
    let cfg = small_config(2, 2, Boundary::Wrap);
    let m = InteractionMatrix::uniform(2, 0, 0);
    let good = vec![still(0, 0, 0), still(1, 10, 10)];
    assert!(World::from_parts(cfg, good.clone(), m).is_ok());
    let m3 = InteractionMatrix::uniform(3, 0, 0);
    assert_eq!(World::from_parts(cfg, good.clone(), m3).err(), Some(SetupError::MatrixSize));
    let m = InteractionMatrix::uniform(2, 0, 0);
    assert_eq!(World::from_parts(cfg, vec![still(0, 0, 0)], m).err(), Some(SetupError::ParticleCount));
    let m = InteractionMatrix::uniform(2, 0, 0);
    let outside = vec![still(0, 0, 0), still(1, 3_000_000, 0)];
    assert_eq!(World::from_parts(cfg, outside, m).err(), Some(SetupError::ParticleOutOfRange));
    let m = InteractionMatrix::uniform(2, 0, 0);
    let bad_color = vec![still(0, 0, 0), still(2, 0, 0)];
    assert_eq!(World::from_parts(cfg, bad_color, m).err(), Some(SetupError::ParticleOutOfRange));
}

#[test]
fn spawned_world_fits_configuration() {
    let cfg = small_config(200, 4, Boundary::Wrap);
    let w = World::new(cfg).unwrap();
    assert_eq!(w.circles().len(), 200);
    let mut distinct = std::collections::HashSet::new();
    for c in w.circles() {
        assert!(c.color < 4);
        assert_eq!(c.rad, cfg.radius);
        assert!(c.pos[0] >= -cfg.half_extent && c.pos[0] < cfg.half_extent);
        assert!(c.vel[1].abs() <= 2_500_000);
        distinct.insert(c.pos[0]);
    }
    assert!(distinct.len() > 100);
    let m = w.matrix();
    for i in 0..4 {
        for j in 0..4 {
            assert!(m.get(i, j).abs() <= INITIAL_SPREAD);
        }
    }
}

#[test]
fn pull_exact_values() {
    let cfg = small_config(2, 2, Boundary::Wrap);
    let m = InteractionMatrix::uniform(2, 1000, -1000);
    let p = still(0, 0, 0);
    // Inside the repulsion radius: r = 100_000, response = 100_000 * 1000 / 300_000 - 1000 = -667.
    let q = still(0, 100_000, 0);
    assert_eq!(pull(&p, &q, &m, &cfg), (-33_350_000, 0));
    // At the tent's peak, (2_000_000 + 300_000) / 2 = 1_150_000: full coefficient.
    let q = still(0, 0, 1_150_000);
    assert_eq!(pull(&p, &q, &m, &cfg), (0, 50_000_000));
    let q = still(1, 0, 1_150_000);
    assert_eq!(pull(&p, &q, &m, &cfg), (0, -50_000_000));
    // Beyond the interaction radius.
    let q = still(0, 2_000_000, 0);
    assert_eq!(pull(&p, &q, &m, &cfg), (0, 0));
    // Coincident particles exert nothing.
    assert_eq!(pull(&p, &p, &m, &cfg), (0, 0));
    // Only the mover's row of the matrix matters.
    let asym = {
        let mut a = InteractionMatrix::uniform(2, 0, 0);
        a.set(0, 1, 1000);
        a
    };
    let q = still(1, 0, 1_150_000);
    assert_eq!(pull(&p, &q, &asym, &cfg), (0, 50_000_000));
    assert_eq!(pull(&q, &p, &asym, &cfg), (0, 0));
}

#[test]
fn velocity_update_exact() {
    let cfg = small_config(1, 1, Boundary::Reflect);
    // damping loss = 1_000_000 * 2000 * 5000 / 1e9 = 10_000; gain = 2_000_000 * 5000 / 1e6 = 10_000.
    let (x, v) = advance_axis(0, 1_000_000, 2_000_000, 5000, &cfg);
    assert_eq!(v, 1_000_000);
    assert_eq!(x, 5_000);
    // Speed limit.
    let (_, v) = advance_axis(0, 20_000_000, 100_000_000_000, 5000, &cfg);
    assert_eq!(v, 20_000_000);
}

#[test]
fn camera_transform_and_present() {
    let cam = Camera::new();
    assert_eq!(cam.scale, ONE / 20);
    let cam = Camera { pos: [2_000_000, -4_000_000], scale: 500_000 };
    let t = cam.transform();
    assert_eq!(t[0], [500_000, 0, 0, 0]);
    assert_eq!(t[1], [0, 500_000, 0, 0]);
    assert_eq!(t[2], [0, 0, ONE, 0]);
    assert_eq!(t[3], [2_000_000, -4_000_000, 0, ONE]);
    assert_eq!(cam.present([1_000_000, 1_000_000]), [2_500_000, -3_500_000]);
    // The origin maps to the focus itself.
    assert_eq!(cam.present([0, 0]), [2_000_000, -4_000_000]);
}

#[test]
fn camera_zoom_clamped() {
    let mut cam = Camera::new();
    let zin = Steer { up: false, down: false, left: false, right: false, zoom_in: true, zoom_out: false };
    cam.steer(zin, 5000);
    assert_eq!(cam.scale, 50_000 + 500);
    for _ in 0..2000 {
        cam.steer(zin, 5000);
    }
    assert_eq!(cam.scale, MAX_SCALE);
    let zout = Steer { zoom_in: false, zoom_out: true, ..zin };
    for _ in 0..5000 {
        cam.steer(zout, 5000);
    }
    assert_eq!(cam.scale, MIN_SCALE);
}

#[test]
fn zoom_both_ways_clamps_once() {
    let mut cam = Camera { pos: [0, 0], scale: MAX_SCALE };
    let both = Steer { up: false, down: false, left: false, right: false, zoom_in: true, zoom_out: true };
    // 1.0 * 1.01 = 1.01, then * 0.99 = 0.9999; clamped only at the end.
    cam.steer(both, 5000);
    assert_eq!(cam.scale, 999_900);
}

#[test]
fn dt_is_clamped() {
    assert_eq!(clamp_dt(0), 0);
    assert_eq!(clamp_dt(1200), 1200);
    assert_eq!(clamp_dt(5000), 5000);
    assert_eq!(clamp_dt(70_000), 5000);
}

#[test]
fn palette_cycles() {
    assert_eq!(color_of(0), [255, 0, 0, 255]);
    assert_eq!(color_of(1), [255, 128, 0, 255]);
    assert_eq!(color_of(5), [255, 0, 255, 255]);
    assert_eq!(color_of(6), [255, 0, 0, 255]);
    let p = palette(8);
    assert_eq!(p.len(), 8);
    assert_eq!(p[7], [255, 128, 0, 255]);
}

#[test]
fn integer_helpers() {
    assert_eq!(isqrt(0), 0);
    assert_eq!(isqrt(15), 3);
    assert_eq!(isqrt(16), 4);
    assert_eq!(isqrt(8_000_000_000_000_000_000), 2_828_427_124);
    assert_eq!(fdiv(7, 2), 3);
    assert_eq!(fdiv(-7, 2), -4);
    assert_eq!(fdiv(i64::MIN, 1), i64::MIN);
}

#[test]
fn repelling_pair_at_rest_moves_apart() {
    let cfg = small_config(2, 2, Boundary::Wrap);
    let m = InteractionMatrix::uniform(2, 300, -600);
    let mut w = World::from_parts(cfg, vec![still(0, -100_000, 50_000), still(1, 700_000, 50_000)], m).unwrap();
    w.tick(5000);
    let cs = w.circles();
    assert!(cs[1].pos[0] - cs[0].pos[0] > 800_000);
    assert_eq!(cs[0].pos[1], 50_000);
    assert_eq!(cs[1].pos[1], 50_000);
}

#[test]
fn attracting_pair_at_rest_closes() {
    let cfg = small_config(2, 1, Boundary::Reflect);
    let m = InteractionMatrix::uniform(1, 1000, 1000);
    let mut w = World::from_parts(cfg, vec![still(0, -600_000, 0), still(0, 600_000, 0)], m).unwrap();
    w.tick(5000);
    let cs = w.circles();
    let d = cs[1].pos[0] - cs[0].pos[0];
    assert!(d > 0 && d < 1_200_000);
    assert_eq!(cs[0].pos[1], 0);
}

#[test]
fn from_draws_is_row_by_row() {
    let m = InteractionMatrix::from_draws(2, &vec![1, -2, 3, -4]);
    assert_eq!(m.colors(), 2);
    assert_eq!(m.get(0, 0), 1);
    assert_eq!(m.get(0, 1), -2);
    assert_eq!(m.get(1, 0), 3);
    assert_eq!(m.get(1, 1), -4);
}

#[test]
fn damping_slows_slow_motion_too() {
    let cfg = small_config(1, 1, Boundary::Wrap);
    // loss = ceil(1 * 2000 * 5000 / 1e9) = 1: even the slowest motion is damped.
    let (x, v) = advance_axis(0, 1, 0, 5000, &cfg);
    assert_eq!((x, v), (0, 0));
    let (_, v) = advance_axis(0, -3, 0, 5000, &cfg);
    assert_eq!(v, -2);
    // loss = ceil(150_000 * 2000 * 5000 / 1e9) = ceil(1500) = 1500.
    let (x, v) = advance_axis(100, 150_000, 0, 5000, &cfg);
    assert_eq!(v, 148_500);
    assert_eq!(x, 100 + 742);
}

#[test]
fn standard_setup() {
    let cfg = Config::standard();
    assert_eq!(cfg.particles, 3000);
    assert_eq!(cfg.colors, 6);
    assert_eq!(cfg.radius, 125_000);
    let sim = Simulation::new(cfg).unwrap();
    assert!(sim.is_paused());
    assert_eq!(sim.camera(), Camera::new());
    assert_eq!(sim.world().circles().len(), 3000);
    for c in sim.world().circles() {
        assert_eq!(c.rad, 125_000);
        assert!(c.vel[0].abs() <= 1_000_000 && c.vel[1].abs() <= 2_500_000);
    }
}
