use sphere_mesh::cadence::Cadence;
use sphere_mesh::mesh::assemble_sphere_mesh;
use sphere_mesh::Vec3Bits;

fn tag(v: u32) -> Vec3Bits {
    Vec3Bits::new(v, 1000 + v, 2000 + v)
}

#[test]
fn assembly_places_every_slot() {
    // Two-by-two grid of cells with nine distinguishable corner samples and
    // eight distinguishable face normals: every output slot is checked
    // against the documented layout, so an assembler that reordered,
    // duplicated or dropped anything would fail here.
    let n: usize = 2;
    let grid: Vec<Vec3Bits> = (0..9).map(tag).collect();
    let face_normals: Vec<Vec3Bits> = (100..108).map(tag).collect();
    let mesh = assemble_sphere_mesh(&grid, &face_normals, n);
    let g = |i: usize, j: usize| tag((i * 3 + j) as u32);
    let mut expected_vertices = Vec::new();
    let mut expected_normals = Vec::new();
    for i in 0..n {
        for j in 0..n {
            let cell = i * n + j;
            expected_vertices.extend([
                g(i, j),
                g(i + 1, j),
                g(i, j + 1),
                g(i + 1, j),
                g(i + 1, j + 1),
                g(i, j + 1),
            ]);
            let first = tag((100 + 2 * cell) as u32);
            let second = tag((100 + 2 * cell + 1) as u32);
            expected_normals.extend([first, first, first, second, second, second]);
        }
    }
    assert_eq!(mesh.vertices, expected_vertices);
    assert_eq!(mesh.normals, expected_normals);
}

#[test]
fn cadence_of_one_fires_every_frame() {
    let mut cadence = Cadence::new(1);
    for _ in 0..25 {
        assert!(cadence.tick());
    }
}

#[test]
fn cadence_fires_on_multiples_of_period() {
    let mut cadence = Cadence::new(10);
    for frame in 0..35u64 {
        assert_eq!(cadence.tick(), frame % 10 == 0);
    }
}

#[test]
fn tier_cadences_run_independently() {
    // The three levels of detail: every frame, every tenth frame, every
    // hundredth frame.
    let mut tiers = [Cadence::new(1), Cadence::new(10), Cadence::new(100)];
    let mut emitted = [0u64; 3];
    for _ in 0..1000 {
        for (tier, count) in tiers.iter_mut().zip(emitted.iter_mut()) {
            if tier.tick() {
                *count += 1;
            }
        }
    }
    assert_eq!(emitted, [1000, 100, 10]);
}
