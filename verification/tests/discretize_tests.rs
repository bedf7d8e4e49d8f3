//! Discretization: determinism, bucket stability, and key separation.

use aletheia_core::QLearningAgent;
use aletheia_core::Vec3;

fn v3(x: i64, y: i64, z: i64) -> Vec3 {
    Vec3 { x, y, z }
}

#[test]
fn discretize_is_deterministic() {
    let a = QLearningAgent::new();
    let s = v3(1_234_567, -7_654_321, 42);
    assert_eq!(a.discretize(s), a.discretize(s));
    let b = QLearningAgent::with_seed(99);
    assert_eq!(a.discretize(s), b.discretize(s));
}

#[test]
fn small_perturbation_keeps_the_key() {
    let a = QLearningAgent::new();
    // 0.100 and 0.110 units both sit in the innermost bucket, whose first
    // boundary is near 0.133 units.
    assert_eq!(a.discretize(v3(100_000, 0, 0)), a.discretize(v3(110_000, 0, 0)));
    // Tiny values of either sign share the origin bucket.
    assert_eq!(a.discretize(v3(0, 0, 0)), a.discretize(v3(1_000, -1_000, 500)));
}

#[test]
fn crossing_a_boundary_changes_the_key() {
    let a = QLearningAgent::new();
    assert_ne!(a.discretize(v3(0, 0, 0)), a.discretize(v3(200_000, 0, 0)));
    // Sign matters: the transform is sign-preserving.
    assert_ne!(a.discretize(v3(200_000, 0, 0)), a.discretize(v3(-200_000, 0, 0)));
    // Axes are packed independently.
    assert_ne!(a.discretize(v3(200_000, 0, 0)), a.discretize(v3(0, 200_000, 0)));
}

#[test]
fn far_states_are_coarse() {
    let a = QLearningAgent::new();
    // Far from the origin a sizable move can stay inside one bucket: the
    // bucket starting near 643.7 units ends only near 826.5 units.
    assert_eq!(
        a.discretize(v3(700_000_000_000, 0, 0)),
        a.discretize(v3(820_000_000_000, 0, 0))
    );
    // Clamping makes anything beyond the range equal to the rim.
    assert_eq!(
        a.discretize(v3(1_000_000_000_000, 0, 0)),
        a.discretize(v3(2_000_000_000_000, 0, 0))
    );
}
