use quantum_atom_viz::floats::{INV_SQRT2_BITS, ONE_BITS, ZERO_BITS};
use quantum_atom_viz::icosphere::{build_icosphere, Mesh, Triangle, CORNERS};
use quantum_atom_viz::presets::{
    presets, pure, superposition, OrbitalComponent, Preset, LEVELS, MAX_COMPONENTS, START_PRESET,
};
use quantum_atom_viz::resources::{WAVE_INDEX_COUNT, WAVE_SUBDIV, WAVE_VERTEX_COUNT};
use quantum_atom_viz::waves::{advance, emit, rows, Triple, Wave, WaveRow, WaveStep, MAX_WAVES};
use std::collections::HashSet;

fn sides(m: &Mesh) -> Vec<(u32, u32)> {
    m.triangles.iter().flat_map(|t| [(t.a, t.b), (t.b, t.c), (t.c, t.a)]).collect()
}

#[test]
fn icosahedron_without_splitting() {
    let m = build_icosphere(0);
    assert!(m.midpoints.is_empty());
    assert_eq!(m.triangles.len(), 20);
    assert_eq!(m.triangles[0], Triangle { a: 0, b: 11, c: 5 });
    assert_eq!(m.triangles[19], Triangle { a: 9, b: 8, c: 1 });
    assert_eq!(m.indices()[..6], [0, 11, 5, 0, 5, 1]);
}

#[test]
fn first_splitting_in_order() {
    let m = build_icosphere(1);
    assert_eq!(m.midpoints[..4], [(0, 11), (5, 11), (0, 5), (1, 5)]);
    assert_eq!(m.triangles[0], Triangle { a: 0, b: 12, c: 14 });
    assert_eq!(m.triangles[1], Triangle { a: 11, b: 13, c: 12 });
    assert_eq!(m.triangles[2], Triangle { a: 5, b: 14, c: 13 });
    assert_eq!(m.triangles[3], Triangle { a: 12, b: 13, c: 14 });
    assert_eq!(m.triangles[4], Triangle { a: 0, b: 14, c: 16 });
}

#[test]
fn splitting_counts() {
    for s in 0..4u32 {
        let m = build_icosphere(s);
        assert_eq!(m.triangles.len(), 20 * 4usize.pow(s));
        assert_eq!(m.midpoints.len() + CORNERS as usize, 10 * 4usize.pow(s) + 2);
        assert_eq!(m.indices().len(), 60 * 4usize.pow(s));
    }
}

#[test]
fn the_wave_shell_fits_its_buffers() {
    let m = build_icosphere(WAVE_SUBDIV);
    assert_eq!(m.midpoints.len() as u32 + CORNERS, WAVE_VERTEX_COUNT);
    assert_eq!(m.indices().len() as u32, WAVE_INDEX_COUNT);
}

#[test]
fn shells_are_closed() {
    for s in 0..4 {
        let m = build_icosphere(s);
        let all = sides(&m);
        let set: HashSet<(u32, u32)> = all.iter().copied().collect();
        assert_eq!(set.len(), all.len());
        for (u, v) in &all {
            assert_ne!(u, v);
            assert!(set.contains(&(*v, *u)));
            assert!((*u as usize) < m.midpoints.len() + 12);
        }
    }
}

#[test]
fn midpoints_lie_between_earlier_vertices() {
    let m = build_icosphere(3);
    let mut seen = HashSet::new();
    for (i, (u, v)) in m.midpoints.iter().enumerate() {
        assert!(u < v && (*v as usize) < 12 + i);
        assert!(seen.insert((*u, *v)));
    }
}

fn triple(v: u32) -> Triple {
    Triple { x: v, y: v + 1, z: v + 2 }
}

fn list(n: u32) -> Vec<Wave> {
    let mut waves = Vec::new();
    for i in 0..n {
        emit(&mut waves, triple(i), triple(100 + i), 7, i);
    }
    waves
}

fn step(radius: u32, alive: bool) -> WaveStep {
    WaveStep { radius, age: radius + 1, alive }
}

#[test]
fn the_youngest_shells_stay() {
    let waves = list(MAX_WAVES);
    assert_eq!(waves.len(), 64);
    assert_eq!((waves[0].speed, waves[63].speed), (0, 63));
    let waves = list(70);
    assert_eq!(waves.len(), 64);
    assert_eq!((waves[0].speed, waves[63].speed), (6, 69));
    assert_eq!(waves[63].origin, triple(69));
    assert_eq!(waves[63].color, triple(169));
    assert_eq!((waves[63].radius, waves[63].age, waves[63].max_radius), (0, 0, 7));
}

#[test]
fn ended_shells_go() {
    let mut waves = list(3);
    advance(&mut waves, &vec![step(5, true), step(6, false), step(7, true)]);
    assert_eq!(waves.len(), 2);
    assert_eq!((waves[0].speed, waves[0].radius, waves[0].age), (0, 5, 6));
    assert_eq!((waves[1].speed, waves[1].radius, waves[1].age), (2, 7, 8));
    advance(&mut waves, &vec![step(1, false), step(1, false)]);
    assert!(waves.is_empty());
    advance(&mut waves, &vec![]);
    assert!(waves.is_empty());
}

#[test]
fn dead_shells_are_not_moved() {
    let mut waves = list(1);
    waves[0].alive = false;
    advance(&mut waves, &vec![step(9, true)]);
    assert!(waves.is_empty());
}

#[test]
fn rows_for_the_shader() {
    let mut waves = list(2);
    advance(&mut waves, &vec![step(5, true), step(6, true)]);
    assert_eq!(
        rows(&waves),
        vec![
            WaveRow { origin: triple(0), radius: 5, color: triple(100), age: 6 },
            WaveRow { origin: triple(1), radius: 6, color: triple(101), age: 7 },
        ]
    );
    let mut many = list(60);
    many.extend(list(60));
    assert_eq!(rows(&many).len(), 64);
    assert_eq!(rows(&many)[63].origin, triple(3));
    assert!(rows(&Vec::new()).is_empty());
}

fn energy(n: i32) -> f32 {
    -1.0 / (2.0 * (n * n) as f32)
}

fn all_presets() -> Vec<Preset> {
    presets([1, 2, 3, 4].map(|n| energy(n).to_bits()))
}

#[test]
fn presets_by_number() {
    let all = all_presets();
    let facts: Vec<(&str, f32, usize)> = all
        .iter()
        .map(|p| (p.name, f32::from_bits(p.max_density), p.components.len()))
        .collect();
    assert_eq!(
        facts,
        vec![
            ("1s ground state", 0.30, 1),
            ("2s (radial node)", 0.04, 1),
            ("2p_z", 0.015, 1),
            ("3d_z^2", 0.004, 1),
            ("3d_xy", 0.004, 1),
            ("Oscillating 1s+2p_z", 0.10, 2),
            ("Breathing 1s+2s", 0.15, 2),
            ("Rabi 2p_z+3d_z^2", 0.010, 2),
            ("4f (n=4,l=3,m=0)", 0.0010, 1),
        ]
    );
    assert_eq!(all[4].components, pure(3, 2, -2, energy(3).to_bits()));
    assert_eq!(
        all[7].components,
        superposition((2, 1, 0), (3, 2, 0), energy(2).to_bits(), energy(3).to_bits())
    );
    assert_eq!(START_PRESET, 5);
}

#[test]
fn named_floats() {
    assert_eq!(f32::from_bits(ZERO_BITS), 0.0);
    assert_eq!(f32::from_bits(ONE_BITS), 1.0);
    assert_eq!(INV_SQRT2_BITS, (1.0 / 2.0f32.sqrt()).to_bits());
}

#[test]
fn presets_are_normalised_eigenstates() {
    for p in all_presets() {
        assert!(p.components.len() <= MAX_COMPONENTS && f32::from_bits(p.max_density) > 0.0);
        let mut weight = 0.0;
        for c in &p.components {
            assert!(c.n >= 1 && c.l >= 0 && c.l < c.n && c.m.abs() <= c.l);
            assert!(c.n as usize <= LEVELS);
            assert_eq!(f32::from_bits(c.z), 1.0);
            assert_eq!(f32::from_bits(c.energy), energy(c.n));
            assert_eq!(f32::from_bits(c.c_imag), 0.0);
            weight += f32::from_bits(c.c_real) * f32::from_bits(c.c_real);
        }
        assert!((weight - 1.0).abs() < 1e-6);
    }
}

#[test]
fn states_of_one_and_two_terms() {
    let term = |n, l, m, c: f32, energy| OrbitalComponent {
        n,
        l,
        m,
        z: 1.0f32.to_bits(),
        c_real: c.to_bits(),
        c_imag: 0,
        energy,
    };
    assert_eq!(pure(4, 3, -1, 7), vec![term(4, 3, -1, 1.0, 7)]);
    let half = 1.0 / 2.0f32.sqrt();
    assert_eq!(
        superposition((1, 0, 0), (2, 1, 0), 8, 9),
        vec![term(1, 0, 0, half, 8), term(2, 1, 0, half, 9)]
    );
}
