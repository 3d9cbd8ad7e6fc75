use bs_solctra_rs::geometry::{build_coils, Coil, GeometryError};

fn displacement(a: &[f64; 3], b: &[f64; 3]) -> [f64; 3] {
    [b[0] - a[0], b[1] - a[1], b[2] - a[2]]
}

fn square() -> Vec<[f64; 3]> {
    vec![
        [1.0, 1.0, 0.0],
        [-1.0, 1.0, 0.0],
        [-1.0, -1.0, 0.0],
        [1.0, -1.0, 0.0],
    ]
}

#[test]
fn segments_align_with_node_pairs() {
    let coil = Coil::new(square(), displacement).unwrap();
    assert_eq!(coil.node_count(), 4);
    assert_eq!(coil.segment_count(), 3);
    for i in 0..coil.segment_count() {
        let (a, b, d) = coil.segment(i);
        assert_eq!(*a, square()[i]);
        assert_eq!(*b, square()[i + 1]);
        assert_eq!(*d, displacement(&square()[i], &square()[i + 1]));
    }
    assert_eq!(coil.segments_ref()[1], [0.0, -2.0, 0.0]);
    assert_eq!(coil.nodes_ref(), &square());
}

#[test]
fn two_nodes_make_one_segment() {
    let coil = Coil::new(vec![[0, 0, 0], [3, 4, 0]], |a: &[i64; 3], b: &[i64; 3]| {
        (b[0] - a[0]) * (b[0] - a[0]) + (b[1] - a[1]) * (b[1] - a[1])
    })
    .unwrap();
    assert_eq!(coil.segment_count(), 1);
    assert_eq!(*coil.segment(0).2, 25);
}

#[test]
fn coil_with_one_node_is_refused() {
    assert!(Coil::new(vec![[0.0, 0.0, 0.0]], displacement).is_none());
    assert!(Coil::new(Vec::new(), displacement).is_none());
}

#[test]
fn build_coils_keeps_input_order() {
    let shifted: Vec<[f64; 3]> = square().iter().map(|p| [p[0], p[1], 1.0]).collect();
    let coils = build_coils(vec![square(), shifted.clone()], displacement).unwrap();
    assert_eq!(coils.len(), 2);
    assert_eq!(coils[0].nodes_ref(), &square());
    assert_eq!(coils[1].nodes_ref(), &shifted);
    assert_eq!(coils[1].segment_count(), 3);
}

#[test]
fn build_coils_reports_first_short_coil() {
    let r = build_coils(
        vec![square(), vec![[0.0, 0.0, 0.0]], Vec::new()],
        displacement,
    );
    assert_eq!(r.err(), Some(GeometryError::TooFewNodes { coil: 1, nodes: 1 }));
}

#[test]
fn build_coils_of_empty_set() {
    let r = build_coils(Vec::<Vec<[f64; 3]>>::new(), displacement).unwrap();
    assert!(r.is_empty());
}
