use burn_import::check::TensorCheck;
use burn_import::tensor::Device;

fn check(check: TensorCheck) {
    if let TensorCheck::Failed(failed) = check {
        panic!("{}", failed.format());
    }
}

#[test]
#[should_panic]
fn reshape_invalid_shape() {
    check(TensorCheck::reshape(&vec![2, 2], &vec![1, 3]));
}

#[test]
fn reshape_valid_shape() {
    check(TensorCheck::reshape(&vec![2, 2], &vec![1, 4]));
}

#[test]
#[should_panic]
fn index_range_exceed_dimension() {
    check(TensorCheck::slice(&vec![3, 5, 7], &vec![0..2, 0..4, 1..8]));
}

#[test]
#[should_panic]
fn index_range_exceed_number_of_dimensions() {
    check(TensorCheck::slice(&vec![3, 5], &vec![0..1, 0..1, 0..1]));
}

#[test]
#[should_panic]
fn binary_ops_shapes_no_broadcast() {
    check(TensorCheck::Passed.binary_ops_ew_shape("TestOps", &vec![3, 5], &vec![3, 6]));
}

#[test]
fn binary_ops_shapes_with_broadcast() {
    check(TensorCheck::Passed.binary_ops_ew_shape("Test", &vec![3, 5], &vec![1, 5]));
}

#[test]
#[should_panic]
fn binary_ops_devices() {
    check(TensorCheck::Passed.binary_ops_device("Test", &Device { id: 5 }, &Device { id: 8 }));
}

fn message(check: TensorCheck) -> String {
    match check {
        TensorCheck::Failed(failed) => failed.format(),
        TensorCheck::Passed => String::new(),
    }
}

#[test]
fn failed_reshape_message_lists_shapes() {
    let m = message(TensorCheck::reshape(&vec![2, 2], &vec![1, 3]));
    assert_eq!(
        m,
        "=== Tensor Operation Error ===\n  Operation: 'Reshape'\n  Reason:\n    1. The given shape \
         doesn't have the same number of elements as the current tensor. Current shape: [2, 2], \
         target shape: [1, 3]. \n"
    );
}

#[test]
fn slice_reports_every_bad_range() {
    let c = TensorCheck::slice(&vec![3, 5], &vec![0..4, 3..3]);
    match c {
        TensorCheck::Failed(f) => {
            assert_eq!(f.ops, "Slice");
            assert_eq!(f.errors.len(), 2);
        }
        TensorCheck::Passed => panic!("expected a failure"),
    }
}

#[test]
fn into_scalar_needs_one_element() {
    assert!(matches!(TensorCheck::into_scalar(&vec![1, 1]), TensorCheck::Passed));
    let m = message(TensorCheck::into_scalar(&vec![2, 3]));
    assert!(m.contains("Current tensor has 6 elements"));
}

#[test]
fn flatten_reports_each_problem() {
    match TensorCheck::flatten(3, 2, 2, 3) {
        TensorCheck::Failed(f) => {
            assert_eq!(f.errors.len(), 3);
            assert_eq!(f.errors[0].description, "The start dim (3) must be smaller than the end dim (2)");
        }
        TensorCheck::Passed => panic!("expected a failure"),
    }
    assert!(matches!(TensorCheck::flatten(1, 2, 3, 2), TensorCheck::Passed));
}

#[test]
fn dim_and_axis_checks() {
    assert!(matches!(TensorCheck::dim_ops("Mean", 1, 2), TensorCheck::Passed));
    assert!(matches!(TensorCheck::dim_ops("Mean", 2, 2), TensorCheck::Failed(_)));
    assert!(matches!(TensorCheck::aggregate_dim("Sum", 2, 2), TensorCheck::Passed));
    assert!(matches!(TensorCheck::aggregate_dim("Sum", 3, 2), TensorCheck::Failed(_)));
    assert!(matches!(TensorCheck::select(3, 2), TensorCheck::Failed(_)));
    assert!(matches!(TensorCheck::select_assign(1, 2), TensorCheck::Passed));
    assert!(matches!(TensorCheck::squeeze(0, &vec![1, 3]), TensorCheck::Passed));
    assert!(matches!(TensorCheck::squeeze(1, &vec![1, 3]), TensorCheck::Failed(_)));
    assert!(matches!(TensorCheck::unsqueeze(3, 2), TensorCheck::Failed(_)));
    assert!(matches!(TensorCheck::swap_dims(0, 3, 2), TensorCheck::Failed(_)));
}

#[test]
fn matmul_and_cat_checks() {
    let d = Device::cpu();
    assert!(matches!(TensorCheck::matmul(&vec![2, 3], &vec![3, 4], &d, &d), TensorCheck::Passed));
    let m = message(TensorCheck::matmul(&vec![2, 3], &vec![2, 4], &d, &d));
    assert!(m.contains("but got 3 and 2."));
    assert!(matches!(TensorCheck::cat(&vec![vec![2, 3], vec![5, 3]], 0, 2), TensorCheck::Passed));
    assert!(matches!(TensorCheck::cat(&vec![vec![2, 3], vec![5, 4]], 0, 2), TensorCheck::Failed(_)));
    assert!(matches!(TensorCheck::cat(&vec![], 0, 2), TensorCheck::Failed(_)));
    assert!(matches!(TensorCheck::cat(&vec![vec![2, 3]], 2, 2), TensorCheck::Failed(_)));
}

#[test]
fn gather_scatter_and_slice_assign_checks() {
    assert!(matches!(TensorCheck::gather(0, &vec![2, 3], &vec![5, 3]), TensorCheck::Passed));
    assert!(matches!(TensorCheck::gather(0, &vec![2, 3], &vec![5, 4]), TensorCheck::Failed(_)));
    assert!(matches!(TensorCheck::scatter(0, &vec![2, 3], &vec![5, 3], &vec![5, 3]), TensorCheck::Passed));
    assert!(matches!(TensorCheck::scatter(0, &vec![2, 3], &vec![5, 3], &vec![5, 2]), TensorCheck::Failed(_)));
    assert!(matches!(TensorCheck::slice_assign(&vec![4, 4], &vec![2, 4], &vec![0..2, 0..4]), TensorCheck::Passed));
    assert!(matches!(TensorCheck::slice_assign(&vec![4, 4], &vec![3, 4], &vec![0..2, 0..4]), TensorCheck::Failed(_)));
}
