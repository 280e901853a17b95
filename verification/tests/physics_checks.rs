// End-to-end checks of the simulation: the library's verified kernel is
// driven with the floating-point arithmetic defined below, and held to the
// published reference energies.

use nbody::kernel::{advance, energy, offset_momentum, Kick};
use nbody::system::{initialize, Body, BODY_COUNT, SOLAR_MASS_BITS};

fn invsqrt(n: f64) -> f64 {
    n.powf(-0.5)
}

fn accumulate_momentum(acc: u64, v: u64, m: u64) -> u64 {
    (f64::from_bits(acc) + (f64::from_bits(v) * f64::from_bits(m))).to_bits()
}

fn central_velocity(p: u64) -> u64 {
    (-f64::from_bits(p) / f64::from_bits(SOLAR_MASS_BITS)).to_bits()
}

fn kick(cur: Body, partner: Body, dt: u64) -> Kick {
    let (bix, biy, biz) = (f64::from_bits(cur.x), f64::from_bits(cur.y), f64::from_bits(cur.z));
    let bimass = f64::from_bits(cur.mass);
    let (bivx, bivy, bivz) =
        (f64::from_bits(cur.vx), f64::from_bits(cur.vy), f64::from_bits(cur.vz));
    let (dx, dy, dz) = (
        bix - f64::from_bits(partner.x),
        biy - f64::from_bits(partner.y),
        biz - f64::from_bits(partner.z),
    );
    let dt = f64::from_bits(dt);
    let dist2 = (dx * dx) + (dy * dy) + (dz * dz);
    let mut mag = invsqrt(dist2);
    mag = dt * (mag / dist2);
    let bm = f64::from_bits(partner.mass) * mag;
    let avx = bivx - (dx * bm);
    let avy = bivy - (dy * bm);
    let avz = bivz - (dz * bm);
    let bm = bimass * mag;
    Kick {
        avx: avx.to_bits(),
        avy: avy.to_bits(),
        avz: avz.to_bits(),
        pvx: (f64::from_bits(partner.vx) + (dx * bm)).to_bits(),
        pvy: (f64::from_bits(partner.vy) + (dy * bm)).to_bits(),
        pvz: (f64::from_bits(partner.vz) + (dz * bm)).to_bits(),
    }
}

fn drift(x: u64, dt: u64, v: u64) -> u64 {
    (f64::from_bits(x) + f64::from_bits(dt) * f64::from_bits(v)).to_bits()
}

fn add_kinetic(acc: u64, b: Body) -> u64 {
    let (vx, vy, vz) = (f64::from_bits(b.vx), f64::from_bits(b.vy), f64::from_bits(b.vz));
    (f64::from_bits(acc) + (0.5 * f64::from_bits(b.mass) * (vx * vx + vy * vy + vz * vz)))
        .to_bits()
}

fn subtract_potential(acc: u64, bi: Body, bj: Body) -> u64 {
    let (dx, dy, dz) = (
        f64::from_bits(bi.x) - f64::from_bits(bj.x),
        f64::from_bits(bi.y) - f64::from_bits(bj.y),
        f64::from_bits(bi.z) - f64::from_bits(bj.z),
    );
    let distance = invsqrt(dx * dx + dy * dy + dz * dz);
    (f64::from_bits(acc) - ((f64::from_bits(bi.mass) * f64::from_bits(bj.mass)) * distance))
        .to_bits()
}

fn normalized_system() -> Vec<Body> {
    let mut bodies = initialize();
    let n = bodies.len();
    offset_momentum(&mut bodies, n, accumulate_momentum, central_velocity);
    bodies
}

fn total_energy(bodies: &Vec<Body>) -> f64 {
    f64::from_bits(energy(bodies, bodies.len(), add_kinetic, subtract_potential))
}

fn step(bodies: &mut Vec<Body>, dt: f64) {
    let n = bodies.len();
    advance(bodies, n, dt.to_bits(), kick, drift);
}

#[test]
fn initial_conditions_have_the_published_bits() {
    let pi = std::f64::consts::PI;
    let solar_mass: f64 = 4.0 * pi * pi;
    let days_per_year: f64 = 365.24;
    let s = initialize();
    assert_eq!(s.len(), BODY_COUNT);
    assert_eq!(SOLAR_MASS_BITS, solar_mass.to_bits());
    assert_eq!(nbody::system::DAYS_PER_YEAR_BITS, days_per_year.to_bits());

    assert_eq!(s[0].x, 0.0f64.to_bits());
    assert_eq!(s[0].y, 0.0f64.to_bits());
    assert_eq!(s[0].z, 0.0f64.to_bits());
    assert_eq!(s[0].vx, 0.0f64.to_bits());
    assert_eq!(s[0].vy, 0.0f64.to_bits());
    assert_eq!(s[0].vz, 0.0f64.to_bits());
    assert_eq!(s[0].mass, solar_mass.to_bits());

    assert_eq!(s[1].x, 4.84143144246472090f64.to_bits());
    assert_eq!(s[1].y, (-1.16032004402742839f64).to_bits());
    assert_eq!(s[1].z, (-0.103622044471123109f64).to_bits());
    assert_eq!(s[1].vx, (0.00166007664274403694f64 * days_per_year).to_bits());
    assert_eq!(s[1].vy, (0.00769901118419740425f64 * days_per_year).to_bits());
    assert_eq!(s[1].vz, (-0.0000690460016972063023f64 * days_per_year).to_bits());
    assert_eq!(s[1].mass, (0.000954791938424326609f64 * solar_mass).to_bits());

    assert_eq!(s[2].x, 8.34336671824457987f64.to_bits());
    assert_eq!(s[2].y, 4.12479856412430479f64.to_bits());
    assert_eq!(s[2].z, (-0.403523417114321381f64).to_bits());
    assert_eq!(s[2].vx, (-0.00276742510726862411f64 * days_per_year).to_bits());
    assert_eq!(s[2].vy, (0.00499852801234917238f64 * days_per_year).to_bits());
    assert_eq!(s[2].vz, (0.0000230417297573763929f64 * days_per_year).to_bits());
    assert_eq!(s[2].mass, (0.000285885980666130812f64 * solar_mass).to_bits());

    assert_eq!(s[3].x, 12.8943695621391310f64.to_bits());
    assert_eq!(s[3].y, (-15.1111514016986312f64).to_bits());
    assert_eq!(s[3].z, (-0.223307578892655734f64).to_bits());
    assert_eq!(s[3].vx, (0.00296460137564761618f64 * days_per_year).to_bits());
    assert_eq!(s[3].vy, (0.00237847173959480950f64 * days_per_year).to_bits());
    assert_eq!(s[3].vz, (-0.0000296589568540237556f64 * days_per_year).to_bits());
    assert_eq!(s[3].mass, (0.0000436624404335156298f64 * solar_mass).to_bits());

    assert_eq!(s[4].x, 15.3796971148509165f64.to_bits());
    assert_eq!(s[4].y, (-25.9193146099879641f64).to_bits());
    assert_eq!(s[4].z, 0.179258772950371181f64.to_bits());
    assert_eq!(s[4].vx, (0.00268067772490389322f64 * days_per_year).to_bits());
    assert_eq!(s[4].vy, (0.00162824170038242295f64 * days_per_year).to_bits());
    assert_eq!(s[4].vz, (-0.0000951592254519715870f64 * days_per_year).to_bits());
    assert_eq!(s[4].mass, (0.0000515138902046611451f64 * solar_mass).to_bits());
}

#[test]
fn initialize_is_bit_identical_across_calls() {
    let a = initialize();
    let b = initialize();
    assert_eq!(a, b);
}

#[test]
fn momentum_vanishes_after_normalization() {
    let bodies = normalized_system();
    let (mut px, mut py, mut pz) = (0.0, 0.0, 0.0);
    for b in &bodies {
        let m = f64::from_bits(b.mass);
        px += f64::from_bits(b.vx) * m;
        py += f64::from_bits(b.vy) * m;
        pz += f64::from_bits(b.vz) * m;
    }
    assert!(px.abs() < 1e-12, "px = {px}");
    assert!(py.abs() < 1e-12, "py = {py}");
    assert!(pz.abs() < 1e-12, "pz = {pz}");
}

#[test]
fn normalization_touches_only_the_central_velocity() {
    let fresh = initialize();
    let bodies = normalized_system();
    for k in 1..fresh.len() {
        assert_eq!(bodies[k], fresh[k]);
    }
    assert_eq!(bodies[0].x, fresh[0].x);
    assert_eq!(bodies[0].y, fresh[0].y);
    assert_eq!(bodies[0].z, fresh[0].z);
    assert_eq!(bodies[0].mass, fresh[0].mass);
}

#[test]
fn masses_survive_integration_bit_for_bit() {
    let mut bodies = normalized_system();
    let fresh = initialize();
    for _ in 0..100 {
        step(&mut bodies, 0.01);
    }
    for k in 0..bodies.len() {
        assert_eq!(bodies[k].mass, fresh[k].mass);
    }
    assert_eq!(bodies.len(), fresh.len());
}

#[test]
fn energy_matches_the_published_values() {
    let mut bodies = normalized_system();
    let e0 = total_energy(&bodies);
    assert!((e0 - (-0.169075164)).abs() < 1e-9, "initial energy = {e0}");
    for _ in 0..1000 {
        step(&mut bodies, 0.01);
    }
    let e1 = total_energy(&bodies);
    assert!((e1 - (-0.169087605)).abs() < 1e-9, "final energy = {e1}");
}

#[test]
fn force_pairs_are_symmetric() {
    let mut bodies = vec![
        Body {
            x: 1.0f64.to_bits(),
            y: 2.0f64.to_bits(),
            z: 3.0f64.to_bits(),
            vx: 0.1f64.to_bits(),
            vy: (-0.2f64).to_bits(),
            vz: 0.3f64.to_bits(),
            mass: 1.5f64.to_bits(),
        },
        Body {
            x: (-2.0f64).to_bits(),
            y: 0.5f64.to_bits(),
            z: 1.0f64.to_bits(),
            vx: (-0.4f64).to_bits(),
            vy: 0.2f64.to_bits(),
            vz: 0.0f64.to_bits(),
            mass: 2.5f64.to_bits(),
        },
    ];
    let before = bodies.clone();
    step(&mut bodies, 0.01);
    let m0 = f64::from_bits(bodies[0].mass);
    let m1 = f64::from_bits(bodies[1].mass);
    let impulse0 = (
        m0 * (f64::from_bits(bodies[0].vx) - f64::from_bits(before[0].vx)),
        m0 * (f64::from_bits(bodies[0].vy) - f64::from_bits(before[0].vy)),
        m0 * (f64::from_bits(bodies[0].vz) - f64::from_bits(before[0].vz)),
    );
    let impulse1 = (
        m1 * (f64::from_bits(bodies[1].vx) - f64::from_bits(before[1].vx)),
        m1 * (f64::from_bits(bodies[1].vy) - f64::from_bits(before[1].vy)),
        m1 * (f64::from_bits(bodies[1].vz) - f64::from_bits(before[1].vz)),
    );
    assert!((impulse0.0 + impulse1.0).abs() < 1e-12);
    assert!((impulse0.1 + impulse1.1).abs() < 1e-12);
    assert!((impulse0.2 + impulse1.2).abs() < 1e-12);
    assert!(impulse0.0.abs() > 0.0, "the pair must actually interact");
}

#[test]
fn single_body_drifts_linearly() {
    let mut bodies = vec![Body {
        x: 1.0f64.to_bits(),
        y: 2.0f64.to_bits(),
        z: (-3.0f64).to_bits(),
        vx: 0.5f64.to_bits(),
        vy: (-0.25f64).to_bits(),
        vz: 0.125f64.to_bits(),
        mass: 1.0f64.to_bits(),
    }];
    step(&mut bodies, 0.01);
    assert_eq!(bodies[0].vx, 0.5f64.to_bits());
    assert_eq!(bodies[0].vy, (-0.25f64).to_bits());
    assert_eq!(bodies[0].vz, 0.125f64.to_bits());
    assert_eq!(bodies[0].x, (1.0f64 + 0.01 * 0.5).to_bits());
    assert_eq!(bodies[0].y, (2.0f64 + 0.01 * -0.25).to_bits());
    assert_eq!(bodies[0].z, (-3.0f64 + 0.01 * 0.125).to_bits());
    assert_eq!(bodies[0].mass, 1.0f64.to_bits());
}

#[test]
fn halving_the_time_step_converges() {
    let mut coarse = normalized_system();
    let mut fine = normalized_system();
    let e_start = total_energy(&coarse);
    for _ in 0..500 {
        step(&mut coarse, 0.01);
    }
    for _ in 0..1000 {
        step(&mut fine, 0.005);
    }
    let e_coarse = total_energy(&coarse);
    let e_fine = total_energy(&fine);
    assert!((e_coarse - e_start).abs() < 1e-3);
    assert!((e_fine - e_start).abs() < 1e-3);
    assert!((e_coarse - e_fine).abs() < 1e-4, "coarse = {e_coarse}, fine = {e_fine}");
}
