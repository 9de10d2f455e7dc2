use burn_import::tensor::{Device, Tensor};

fn t(data: Vec<i64>, shape: Vec<usize>) -> Tensor<i64> {
    Tensor::from_data(data, shape).unwrap()
}

#[test]
fn from_data_checks_element_count() {
    assert!(Tensor::from_data(vec![1i64, 2, 3], vec![2, 2]).is_none());
    assert!(Tensor::from_data(vec![1i64, 2, 3, 4], vec![2, 2]).is_some());
    assert!(Tensor::<i64>::from_data(vec![], vec![3, 0]).is_some());
}

#[test]
fn scalar_operations() {
    assert_eq!(t(vec![1, 2], vec![2]).add_scalar(3).into_data(), vec![4, 5]);
    assert_eq!(t(vec![1, 2], vec![2]).sub_scalar(3).into_data(), vec![-2, -1]);
    assert_eq!(t(vec![1, -2], vec![2]).mul_scalar(3).into_data(), vec![3, -6]);
    assert_eq!(t(vec![7, -7], vec![2]).div_scalar(2).into_data(), vec![3, -3]);
    assert_eq!(t(vec![1, -2], vec![2]).neg().into_data(), vec![-1, 2]);
    assert_eq!(t(vec![1, -2], vec![2]).abs().into_data(), vec![1, 2]);
}

#[test]
fn creation() {
    assert_eq!(Tensor::zeros(vec![2, 2]).into_data(), vec![0; 4]);
    assert_eq!(Tensor::ones_device(vec![3], &Device::cpu()).into_data(), vec![1; 3]);
    assert_eq!(Tensor::full(vec![2], 9).into_data(), vec![9, 9]);
    assert_eq!(Tensor::zeros_device(vec![1], &Device::cpu()).shape(), vec![1]);
    assert_eq!(Tensor::ones(vec![2]).into_data(), vec![1, 1]);
    assert_eq!(Tensor::full_device(vec![1], -4, &Device::cpu()).into_data(), vec![-4]);
}

#[test]
fn reductions() {
    assert_eq!(t(vec![1, 2, 3, 4], vec![2, 2]).sum().into_data(), vec![10]);
    assert_eq!(t(vec![1, 2, 3, 5], vec![2, 2]).mean().into_data(), vec![2]);
    assert_eq!(t(vec![-1, -2, -4], vec![3]).mean().into_data(), vec![-2]);
    assert_eq!(t(vec![3, 9, 2], vec![3]).max().into_data(), vec![9]);
    assert_eq!(t(vec![3, 9, 2], vec![3]).min().into_data(), vec![2]);
    assert_eq!(t(vec![5], vec![1]).into_scalar(), 5);
}

#[test]
fn comparisons_and_masks() {
    let a = t(vec![1, 5, 3], vec![3]);
    assert_eq!(a.clone().equal_elem(3).into_data(), vec![false, false, true]);
    assert_eq!(a.clone().greater_elem(3).into_data(), vec![false, true, false]);
    assert_eq!(a.clone().greater_equal_elem(3).into_data(), vec![false, true, true]);
    assert_eq!(a.clone().lower_elem(3).into_data(), vec![true, false, false]);
    assert_eq!(a.clone().lower_equal_elem(3).into_data(), vec![true, false, true]);
    let mask = a.clone().greater_elem(2);
    assert_eq!(a.clone().mask_fill(mask, 0).into_data(), vec![1, 0, 0]);
    let mask = a.clone().lower_elem(2);
    assert_eq!(a.mask_where(mask, t(vec![7, 8, 9], vec![3])).into_data(), vec![7, 5, 3]);
}

#[test]
fn clamping() {
    let a = t(vec![-5, 0, 5], vec![3]);
    assert_eq!(a.clone().clamp(-1, 1).into_data(), vec![-1, 0, 1]);
    assert_eq!(a.clone().clamp_min(0).into_data(), vec![0, 0, 5]);
    assert_eq!(a.clamp_max(0).into_data(), vec![-5, 0, 0]);
}

#[test]
fn broadcast_arithmetic() {
    let a = t(vec![1, 2, 3, 4, 5, 6], vec![2, 3]);
    let row = t(vec![10, 20, 30], vec![1, 3]);
    assert_eq!(a.clone().add(row.clone()).into_data(), vec![11, 22, 33, 14, 25, 36]);
    assert_eq!(a.clone().sub(row.clone()).into_data(), vec![-9, -18, -27, -6, -15, -24]);
    let col = t(vec![2, -1], vec![2, 1]);
    assert_eq!(a.clone().mul(col.clone()).into_data(), vec![2, 4, 6, -4, -5, -6]);
    assert_eq!(a.clone().div(col).into_data(), vec![0, 1, 1, -4, -5, -6]);
    let s = a.clone().add(t(vec![1, 1, 1, 1, 1, 1], vec![2, 3]));
    assert_eq!(s.shape(), vec![2, 3]);
}

#[test]
fn broadcast_comparisons() {
    let a = t(vec![1, 5, 3, 3], vec![2, 2]);
    let b = t(vec![3, 3], vec![1, 2]);
    assert_eq!(a.clone().greater(b.clone()).into_data(), vec![false, true, false, false]);
    assert_eq!(a.clone().greater_equal(b.clone()).into_data(), vec![false, true, true, true]);
    assert_eq!(a.clone().lower(b.clone()).into_data(), vec![true, false, false, false]);
    assert_eq!(a.lower_equal(b).into_data(), vec![true, false, true, true]);
}

#[test]
fn reductions_along_a_dimension() {
    let a = t(vec![1, 7, 3, 4, 2, 9], vec![2, 3]);
    let s = a.clone().sum_dim(1);
    assert_eq!(s.shape(), vec![2, 1]);
    assert_eq!(s.into_data(), vec![11, 15]);
    assert_eq!(a.clone().sum_dim(0).into_data(), vec![5, 9, 12]);
    assert_eq!(a.clone().mean_dim(1).into_data(), vec![3, 5]);
    assert_eq!(a.clone().max_dim(1).into_data(), vec![7, 9]);
    assert_eq!(a.clone().min_dim(0).into_data(), vec![1, 2, 3]);
    assert_eq!(a.clone().argmax(1).into_data(), vec![1, 2]);
    assert_eq!(a.clone().argmin(1).into_data(), vec![0, 1]);
    let (v, i) = a.clone().max_dim_with_indices(0);
    assert_eq!((v.into_data(), i.into_data()), (vec![4, 7, 9], vec![1, 0, 1]));
    let (v, i) = a.min_dim_with_indices(1);
    assert_eq!((v.into_data(), i.into_data()), (vec![1, 2], vec![0, 1]));
}

#[test]
fn argmax_takes_the_first_of_equal_maxima() {
    assert_eq!(t(vec![4, 4, 1], vec![1, 3]).argmax(1).into_data(), vec![0]);
}

#[test]
fn select_gather_and_assignments() {
    let a = t(vec![1, 2, 3, 4, 5, 6], vec![2, 3]);
    let rows = a.clone().select(0, t(vec![1, 1, 0], vec![3]));
    assert_eq!(rows.shape(), vec![3, 3]);
    assert_eq!(rows.into_data(), vec![4, 5, 6, 4, 5, 6, 1, 2, 3]);
    assert_eq!(a.clone().select(1, t(vec![2, 0], vec![2])).into_data(), vec![3, 1, 6, 4]);
    let g = a.clone().gather(1, t(vec![2, 2, 0, 1], vec![2, 2]));
    assert_eq!(g.into_data(), vec![3, 3, 4, 5]);
    let sa = a.clone().select_assign(0, t(vec![1, 1], vec![2]), t(vec![1, 1, 1, 2, 2, 2], vec![2, 3]));
    assert_eq!(sa.into_data(), vec![1, 2, 3, 7, 8, 9]);
    let sc = a.scatter(1, t(vec![0, 0, 2, 1], vec![2, 2]), t(vec![10, 20, 30, 40], vec![2, 2]));
    assert_eq!(sc.into_data(), vec![31, 2, 3, 4, 45, 36]);
}
