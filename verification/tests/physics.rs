use space_simulation::bodies::SpaceBody;
use space_simulation::scheduler::{
    judge_pair, DegenerateConfigurationError, SpaceSimulationStepResult, StepAction, StepOutcome,
};
use space_simulation::simulation::SpaceSimulation;

type Vec3 = [f64; 3];
type Sim = SpaceSimulation<Vec3, f64, ()>;

const G: f64 = 6.674e-11;
const SUN_MASS: f64 = 1.989e30;
const EARTH_MASS: f64 = 5.972e24;
const EARTH_DISTANCE: f64 = 1.496e11;
const EARTH_SPEED: f64 = 29.78e3;

fn minus(a: Vec3, b: Vec3) -> Vec3 {
    [a[0] - b[0], a[1] - b[1], a[2] - b[2]]
}

fn plus(a: Vec3, b: Vec3) -> Vec3 {
    [a[0] + b[0], a[1] + b[1], a[2] + b[2]]
}

fn times(a: Vec3, k: f64) -> Vec3 {
    [a[0] * k, a[1] * k, a[2] * k]
}

fn length(a: Vec3) -> f64 {
    (a[0] * a[0] + a[1] * a[1] + a[2] * a[2]).sqrt()
}

fn evaluate_pair(
    sim: &mut Sim,
    i: usize,
    j: usize,
    delta: f64,
    tolerate: bool,
) -> SpaceSimulationStepResult {
    let distance_vec = minus(sim.bodies.positions()[i], sim.bodies.positions()[j]);
    let distance = length(distance_vec);
    let degenerate = distance == 0.0 || !distance.is_finite();
    let threshold = sim.percision_table.get(i, j).copied().unwrap_or(0.0) * delta;
    let verdict = judge_pair(degenerate, distance < threshold, tolerate);
    if verdict.apply {
        let direction = times(distance_vec, 1.0 / distance);
        let pull = sim.G / (distance * distance);
        let accel_on_i = times(direction, -pull * sim.bodies.masses()[j]);
        let accel_on_j = times(direction, pull * sim.bodies.masses()[i]);
        let v_i = plus(sim.bodies.velocities()[i], times(accel_on_i, delta));
        let v_j = plus(sim.bodies.velocities()[j], times(accel_on_j, delta));
        *sim.bodies.velocities_mut(i) = v_i;
        *sim.bodies.velocities_mut(j) = v_j;
        sim.percision_table.insert(i, j, length(v_i) + length(v_j));
    }
    verdict.report
}

fn integrate_positions(sim: &mut Sim, delta: f64) {
    for i in sim.get_range() {
        let moved = plus(sim.bodies.positions()[i], times(sim.bodies.velocities()[i], delta));
        *sim.bodies.positions_mut(i) = moved;
    }
}

fn advance(sim: &mut Sim, total_delta: f64) -> (StepOutcome, usize) {
    let mut step = sim.take_step_smooth();
    let mut action = step.action();
    loop {
        let report = match action {
            StepAction::EvaluatePair { first, second, sub_steps, tolerate } => {
                evaluate_pair(sim, first, second, total_delta / sub_steps as f64, tolerate)
            }
            StepAction::IntegratePositions { sub_steps } => {
                integrate_positions(sim, total_delta / sub_steps as f64);
                SpaceSimulationStepResult::Success
            }
            StepAction::Finished { outcome, sub_steps } => {
                if !matches!(outcome, StepOutcome::Degenerate(_)) {
                    sim.time += total_delta;
                }
                return (outcome, sub_steps);
            }
        };
        action = sim.take_step(&mut step, report);
    }
}

fn place(sim: &mut Sim, name: &str, position: Vec3, velocity: Vec3, mass: f64) -> usize {
    sim.bodies
        .insert(name.to_string(), SpaceBody { position, velocity, mass, radius: 1.0, rotation: () })
        .unwrap()
}

fn sun_and_earth() -> Sim {
    let mut sim = Sim::new(G, 0.0, 20, 2).unwrap();
    place(&mut sim, "Sun", [0.0, 0.0, 0.0], [0.0, 0.0, 0.0], SUN_MASS);
    place(&mut sim, "Earth", [EARTH_DISTANCE, 0.0, 0.0], [0.0, 0.0, -EARTH_SPEED], EARTH_MASS);
    sim
}

fn total_momentum(sim: &Sim) -> Vec3 {
    let mut total = [0.0, 0.0, 0.0];
    for i in sim.get_range() {
        total = plus(total, times(sim.bodies.velocities()[i], sim.bodies.masses()[i]));
    }
    total
}

fn total_energy(sim: &Sim) -> f64 {
    let mut total = 0.0;
    for i in sim.get_range() {
        let speed = length(sim.bodies.velocities()[i]);
        total += 0.5 * sim.bodies.masses()[i] * speed * speed;
    }
    for i in sim.get_range() {
        for j in i + 1..sim.bodies.len() {
            let distance = length(minus(sim.bodies.positions()[i], sim.bodies.positions()[j]));
            total -= sim.G * sim.bodies.masses()[i] * sim.bodies.masses()[j] / distance;
        }
    }
    total
}

#[test]
fn newtons_third_law() {
    for delta in [0.5, 60.0, 3600.0, 86400.0] {
        let mut sim = sun_and_earth();
        let before = [sim.bodies.velocities()[0], sim.bodies.velocities()[1]];
        assert_eq!(evaluate_pair(&mut sim, 0, 1, delta, false), SpaceSimulationStepResult::Success);
        let on_sun = times(minus(sim.bodies.velocities()[0], before[0]), SUN_MASS);
        let on_earth = times(minus(sim.bodies.velocities()[1], before[1]), EARTH_MASS);
        let scale = length(on_sun);
        assert!(scale > 0.0);
        assert!(length(plus(on_sun, on_earth)) <= 1e-9 * scale);
        // the pull is along the line between the bodies, of the size Newton gives
        let expected = G * SUN_MASS * EARTH_MASS / (EARTH_DISTANCE * EARTH_DISTANCE) * delta;
        assert!((on_sun[0] - expected).abs() <= 1e-9 * expected);
        assert!((on_earth[0] + expected).abs() <= 1e-9 * expected);
    }
}

#[test]
fn momentum_is_conserved() {
    let mut sim = sun_and_earth();
    place(&mut sim, "Moon", [EARTH_DISTANCE + 3.844e8, 0.0, 0.0], [0.0, 0.0, -EARTH_SPEED - 1022.0], 7.342e22);
    let before = total_momentum(&sim);
    for _ in 0..500 {
        let (outcome, _) = advance(&mut sim, 600.0);
        assert_eq!(outcome, StepOutcome::Success);
    }
    let after = total_momentum(&sim);
    assert!(length(minus(after, before)) <= 1e-9 * length(before));
}

#[test]
fn energy_stays_bounded_over_one_orbit() {
    let mut sim = sun_and_earth();
    let start = total_energy(&sim);
    assert!(start < 0.0);
    let mut worst: f64 = 0.0;
    for _ in 0..8766 {
        let (outcome, sub_steps) = advance(&mut sim, 3600.0);
        assert_eq!(outcome, StepOutcome::Success);
        assert_eq!(sub_steps, 1);
        worst = worst.max(((total_energy(&sim) - start) / start).abs());
    }
    assert!(worst < 0.01);
}

#[test]
fn a_collision_course_forces_a_shorter_step() {
    let mut sim = Sim::new(G, 0.0, 20, 2).unwrap();
    place(&mut sim, "left", [0.0, 0.0, 0.0], [100.0, 0.0, 0.0], 1.0);
    place(&mut sim, "right", [1000.0, 0.0, 0.0], [-100.0, 0.0, 0.0], 1.0);
    sim.percision_table.insert(0, 1, 400.0);
    // 1000 m apart with 400 m/s on record: 3 s would cover 1200 m
    let (outcome, sub_steps) = advance(&mut sim, 3.0);
    assert_eq!(outcome, StepOutcome::Success);
    assert_eq!(sub_steps, 2);
    assert_eq!(sim.time, 3.0);
    let distance = length(minus(sim.bodies.positions()[0], sim.bodies.positions()[1]));
    assert!((distance - 400.0).abs() < 1e-6);
    let recorded = *sim.percision_table.get(0, 1).unwrap();
    assert!((recorded - 200.0).abs() < 1e-6);
}

#[test]
fn a_wide_pair_needs_no_retry() {
    let mut sim = Sim::new(G, 0.0, 20, 2).unwrap();
    place(&mut sim, "left", [0.0, 0.0, 0.0], [100.0, 0.0, 0.0], 1.0);
    place(&mut sim, "right", [1000.0, 0.0, 0.0], [-100.0, 0.0, 0.0], 1.0);
    sim.percision_table.insert(0, 1, 200.0);
    assert_eq!(advance(&mut sim, 4.0), (StepOutcome::Success, 1));
    assert_eq!(sim.time, 4.0);
}

#[test]
fn an_unavoidable_encounter_is_given_up_not_failed() {
    let mut sim = Sim::new(G, 0.0, 3, 2).unwrap();
    place(&mut sim, "left", [0.0, 0.0, 0.0], [100.0, 0.0, 0.0], 1.0);
    place(&mut sim, "right", [1000.0, 0.0, 0.0], [-100.0, 0.0, 0.0], 1.0);
    sim.percision_table.insert(0, 1, 200.0);
    // the bodies pass through each other around 5 s: no step size keeps them apart
    let (outcome, sub_steps) = advance(&mut sim, 7.0);
    assert_eq!(outcome, StepOutcome::GivenUp);
    assert_eq!(sub_steps, 8);
    assert_eq!(sim.time, 7.0);
}

#[test]
fn coincident_bodies_fail_the_step_and_keep_the_state() {
    let mut sim = Sim::new(G, 5.0, 20, 2).unwrap();
    place(&mut sim, "a", [1.0, 2.0, 3.0], [1.0, 0.0, 0.0], 10.0);
    place(&mut sim, "b", [7.0, 2.0, 3.0], [0.0, 1.0, 0.0], 10.0);
    place(&mut sim, "c", [7.0, 2.0, 3.0], [0.0, 0.0, 1.0], 10.0);
    let (outcome, _) = advance(&mut sim, 1.0);
    assert_eq!(
        outcome,
        StepOutcome::Degenerate(DegenerateConfigurationError { first: 1, second: 2 })
    );
    assert_eq!(sim.bodies.positions(), &vec![[1.0, 2.0, 3.0], [7.0, 2.0, 3.0], [7.0, 2.0, 3.0]]);
    assert_eq!(sim.bodies.velocities(), &vec![[1.0, 0.0, 0.0], [0.0, 1.0, 0.0], [0.0, 0.0, 1.0]]);
    assert_eq!(sim.time, 5.0);
}

#[test]
fn zero_delta_changes_nothing() {
    let mut sim = sun_and_earth();
    place(&mut sim, "Probe", [1.0e9, -2.0e9, 3.0e9], [-12.5, 40.25, 7.0], 721.9);
    advance(&mut sim, 3600.0);
    let positions: Vec<Vec3> = sim.bodies.positions().clone();
    let velocities: Vec<Vec3> = sim.bodies.velocities().clone();
    let time = sim.time;
    assert_eq!(advance(&mut sim, 0.0), (StepOutcome::Success, 1));
    for i in sim.get_range() {
        for axis in 0..3 {
            assert_eq!(sim.bodies.positions()[i][axis].to_bits(), positions[i][axis].to_bits());
            assert_eq!(sim.bodies.velocities()[i][axis].to_bits(), velocities[i][axis].to_bits());
        }
    }
    assert_eq!(sim.time.to_bits(), time.to_bits());
}

#[test]
fn earth_returns_after_one_year() {
    let mut sim = sun_and_earth();
    let steps = 8766;
    let delta = 3.156e7 / steps as f64;
    for _ in 0..steps {
        assert_eq!(advance(&mut sim, delta), (StepOutcome::Success, 1));
        let separation = length(minus(sim.bodies.positions()[1], sim.bodies.positions()[0]));
        assert!((separation - EARTH_DISTANCE).abs() < 0.01 * EARTH_DISTANCE);
    }
    assert!((sim.time - 3.156e7).abs() < 1.0);
    let sun = sim.bodies.positions()[sim.bodies.get_index("Sun").unwrap()];
    let earth = sim.bodies.positions()[sim.bodies.get_index("Earth").unwrap()];
    let separation = length(minus(earth, sun));
    assert!((separation - EARTH_DISTANCE).abs() < 0.01 * EARTH_DISTANCE);
    let back = minus(minus(earth, sun), [EARTH_DISTANCE, 0.0, 0.0]);
    assert!(length(back) < 0.05 * EARTH_DISTANCE);
}
