use revgrad::shape::{argsort, shape_to_axes};

#[test]
fn test_argsort() {
    assert_eq!(argsort(&[0, 1]), [0, 1]);
    assert_eq!(argsort(&[1, 0]), [1, 0]);
    assert_eq!(argsort(&[2, 0, 1]), [1, 2, 0]);
    assert_eq!(argsort(&[0, 1, 2]), [0, 1, 2]);
}

#[test]
fn argsort_inverts_its_own_result() {
    let order: Vec<usize> = vec![1, 2, 0];
    let inverse = argsort(&order);
    assert_eq!(inverse, [2, 0, 1]);
    assert_eq!(argsort(&inverse), order);

    let order: Vec<usize> = vec![3, 1, 4, 0, 2];
    assert_eq!(argsort(&argsort(&order)), order);
}

#[test]
fn shape_to_axes_identical_shapes_is_empty() {
    assert_eq!(shape_to_axes(&[4, 3], &[4, 3]), Vec::<usize>::new());
    assert_eq!(shape_to_axes(&[], &[]), Vec::<usize>::new());
}

#[test]
fn shape_to_axes_collects_exactly_the_differing_indices() {
    assert_eq!(shape_to_axes(&[4, 3], &[4, 1]), [1]);
    assert_eq!(shape_to_axes(&[1, 3], &[4, 3]), [0]);
    assert_eq!(shape_to_axes(&[2, 1, 5, 1], &[2, 7, 5, 3]), [1, 3]);
    assert_eq!(shape_to_axes(&[2, 2, 2], &[1, 1, 1]), [0, 1, 2]);
}
