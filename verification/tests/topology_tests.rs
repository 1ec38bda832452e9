use cloth_sim::topology::{generate_particles, generate_springs, Spring, SpringClass};
use cloth_sim::vec3::Vec3;

fn count_class(springs: &[Spring], class: SpringClass) -> usize {
    springs.iter().filter(|s| s.class == class).count()
}

fn expected_counts(n: usize) -> (usize, usize, usize) {
    let structural = 2 * n * (n - 1);
    let shear = 2 * (n - 1) * (n - 1);
    let bend = if n < 3 { 0 } else { 2 * n * (n - 2) };
    (structural, shear, bend)
}

#[test]
fn spring_count_formula_small_grids() {
    for n in [2u32, 3, 4, 5, 8, 16] {
        let springs = generate_springs(n, 10, 1, 2, 3);
        let (structural, shear, bend) = expected_counts(n as usize);
        assert_eq!(count_class(&springs, SpringClass::Adjacent), structural);
        assert_eq!(count_class(&springs, SpringClass::Diagonal), shear);
        assert_eq!(count_class(&springs, SpringClass::TwoApart), bend);
        assert_eq!(springs.len(), structural + shear + bend);
    }
}

#[test]
fn generation_is_deterministic() {
    let p1 = generate_particles(5, 10, 7);
    let p2 = generate_particles(5, 10, 7);
    assert_eq!(p1, p2);
    let s1 = generate_springs(5, 10, 1, 2, 3);
    let s2 = generate_springs(5, 10, 1, 2, 3);
    assert_eq!(s1, s2);
}

#[test]
fn particle_lattice_positions() {
    let p = generate_particles(2, 10, 7);
    assert_eq!(p.len(), 4);
    // index = row * grid_size + col; x from the column, z from the row
    assert_eq!(p[0].position, Vec3 { x: -20, y: 7, z: -20 });
    assert_eq!(p[1].position, Vec3 { x: 0, y: 7, z: -20 });
    assert_eq!(p[2].position, Vec3 { x: -20, y: 7, z: 0 });
    assert_eq!(p[3].position, Vec3 { x: 0, y: 7, z: 0 });
    for q in &p {
        assert_eq!(q.velocity, Vec3 { x: 0, y: 0, z: 0 });
    }
}

#[test]
fn spring_list_of_two_by_two_grid() {
    let s = generate_springs(2, 10, 5, 6, 7);
    // cells in row-major order; within a cell: structural right, structural
    // down, shear down-right, shear down-left, bend right, bend down
    let expected = vec![
        Spring { stiffness: 5, rest_length: 20, particle_a: 0, particle_b: 1, class: SpringClass::Adjacent },
        Spring { stiffness: 5, rest_length: 20, particle_a: 0, particle_b: 2, class: SpringClass::Adjacent },
        Spring { stiffness: 6, rest_length: 28, particle_a: 0, particle_b: 3, class: SpringClass::Diagonal },
        Spring { stiffness: 5, rest_length: 20, particle_a: 1, particle_b: 3, class: SpringClass::Adjacent },
        Spring { stiffness: 6, rest_length: 28, particle_a: 1, particle_b: 2, class: SpringClass::Diagonal },
        Spring { stiffness: 5, rest_length: 20, particle_a: 2, particle_b: 3, class: SpringClass::Adjacent },
    ];
    assert_eq!(s, expected);
}

#[test]
fn rest_lengths_by_class() {
    // half-spacing 10: structural rest 20, shear rest floor(sqrt(800)) = 28,
    // bend rest 40
    let s = generate_springs(3, 10, 1, 1, 1);
    for spring in &s {
        let expected = match spring.class {
            SpringClass::Adjacent => 20,
            SpringClass::Diagonal => 28,
            SpringClass::TwoApart => 40,
        };
        assert_eq!(spring.rest_length, expected);
    }
}

#[test]
fn springs_stay_inside_the_grid() {
    let n = 7u32;
    let count = (n * n) as u32;
    let s = generate_springs(n, 10, 1, 2, 3);
    for spring in &s {
        assert!(spring.particle_a < count);
        assert!(spring.particle_b < count);
        assert_ne!(spring.particle_a, spring.particle_b);
    }
}
