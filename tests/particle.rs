use bs_solctra_rs::particle::{checkpoint_records, ParticleState};

const SENTINEL: [f64; 3] = [0.0944165, 0.0944165, 0.0944165];

#[test]
fn new_particle_is_active() {
    let s = ParticleState::new([0.2, 0.0, 0.01]);
    assert!(s.is_active());
    assert!(!s.is_divergent());
    assert_eq!(s.position(), [0.2, 0.0, 0.01]);
    assert_eq!(s.record(SENTINEL), [0.2, 0.0, 0.01]);
}

#[test]
fn contained_step_moves_particle() {
    let s = ParticleState::new([0.2, 0.0, 0.0]).advance(Some([0.21, 0.01, 0.0]));
    assert!(s.is_active());
    assert_eq!(s.position(), [0.21, 0.01, 0.0]);
}

#[test]
fn escaped_step_marks_divergent() {
    let s = ParticleState::new([0.2, 0.0, 0.0]).advance(None);
    assert!(s.is_divergent());
    assert_eq!(s.position(), [0.2, 0.0, 0.0]);
    assert_eq!(s.record(SENTINEL), SENTINEL);
}

#[test]
fn divergent_particle_stays_frozen() {
    let mut s = ParticleState::new([0.2, 0.0, 0.0]).advance(None);
    for k in 0..10 {
        s = s.advance(Some([k as f64, 1.0, 2.0]));
        assert!(s.is_divergent());
        assert_eq!(s.position(), [0.2, 0.0, 0.0]);
        assert_eq!(s.record(SENTINEL).map(f64::to_bits), SENTINEL.map(f64::to_bits));
    }
}

#[test]
fn degenerate_step_resolves_to_finite_record() {
    // A particle sitting on a coil node: the step that cannot be normalised
    // is reported as no position, and the particle is frozen.
    let s = ParticleState::new([1.0, 0.0, 0.0]).advance(None);
    assert!(s.is_divergent());
    assert!(s.record(SENTINEL).iter().all(|c| c.is_finite()));
}

#[test]
fn checkpoint_records_follow_partition_order() {
    let states = vec![
        ParticleState::new([1.0, 2.0, 3.0]),
        ParticleState::new([4.0, 5.0, 6.0]).advance(None),
        ParticleState::new([7.0, 8.0, 9.0]),
    ];
    assert_eq!(
        checkpoint_records(&states, SENTINEL),
        vec![[1.0, 2.0, 3.0], SENTINEL, [7.0, 8.0, 9.0]]
    );
}

#[test]
fn checkpoint_records_of_empty_partition() {
    let states: Vec<ParticleState<[f64; 3]>> = Vec::new();
    assert!(checkpoint_records(&states, SENTINEL).is_empty());
}
