use burn_import::pool::{max_pool1d, max_pool1d_with_indices, max_pool1d_with_indices_backward};
use burn_import::tensor::Tensor;

// Tensors hold integers: a decimal with four places is written in units of 1e-4.
fn fixed(v: f64) -> i64 {
    (v * 10000.0).round() as i64
}

fn tensor3(values: &[f64], shape: [usize; 3]) -> Tensor<i64> {
    let data: Vec<i64> = values.iter().map(|v| fixed(*v)).collect();
    Tensor::from_data(data, shape.to_vec()).unwrap()
}

fn assert_approx_eq(expected: &[f64], actual: &[i64]) {
    assert_eq!(expected.len(), actual.len());
    for (e, a) in expected.iter().zip(actual.iter()) {
        assert!((e - (*a as f64) / 10000.0).abs() < 1e-3, "{} != {}", e, a);
    }
}

fn backward_of_sum(x: &Tensor<i64>, kernel_size: usize, stride: usize, padding: usize) -> Vec<i64> {
    let (output, indices) = max_pool1d_with_indices(x, kernel_size, stride, padding);
    let ones = Tensor::ones(output.shape());
    max_pool1d_with_indices_backward(x, kernel_size, stride, padding, &ones, &indices).into_data()
}

fn assert_grad_eq(expected: &[f64], actual: &[i64]) {
    assert_eq!(expected.len(), actual.len());
    for (e, a) in expected.iter().zip(actual.iter()) {
        assert!((e - *a as f64).abs() < 1e-3, "{} != {}", e, a);
    }
}

#[test]
fn test_max_pool1d_simple() {
    let kernel_size = 3;
    let padding = 1;
    let stride = 1;

    let x = tensor3(
        &[
            0.9861, 0.5474, 0.4477, 0.0732, 0.3548, 0.8221, 0.8148, 0.5474, 0.9490, 0.7890, 0.5537,
            0.5689,
        ],
        [1, 2, 6],
    );
    let y = [
        0.9861, 0.9861, 0.5474, 0.4477, 0.8221, 0.8221, 0.8148, 0.9490, 0.9490, 0.9490, 0.7890,
        0.5689,
    ];

    let output = max_pool1d(&x, kernel_size, stride, padding);

    assert_eq!(output.shape(), vec![1, 2, 6]);
    assert_approx_eq(&y, &output.into_data());
}

#[test]
fn test_max_pool1d_different_padding_stride_kernel() {
    let kernel_size = 3;
    let padding = 1;
    let stride = 2;

    let x = tensor3(&[0.6309, 0.6112, 0.6998, 0.4708], [1, 1, 4]);
    let y = [0.6309, 0.6998];

    let output = max_pool1d(&x, kernel_size, stride, padding);

    assert_approx_eq(&y, &output.into_data());
}

#[test]
fn test_max_pool1d_with_neg() {
    let kernel_size = 3;
    let padding = 1;
    let stride = 1;

    let x = tensor3(&[-0.6309, -0.6112, -0.6998, -0.4708], [1, 1, 4]);
    let y = [-0.6112, -0.6112, -0.4708, -0.4708];

    let output = max_pool1d(&x, kernel_size, stride, padding);

    assert_approx_eq(&y, &output.into_data());
}

#[test]
fn test_max_pool1d_with_indices() {
    let kernel_size = 2;
    let padding = 1;
    let stride = 1;

    let x = tensor3(&[0.2479, 0.6386, 0.3166, 0.5742], [1, 1, 4]);
    let indices: Vec<i64> = vec![0, 1, 1, 3, 3];
    let y = [0.2479, 0.6386, 0.6386, 0.5742, 0.5742];

    let (output, output_indices) = max_pool1d_with_indices(&x, kernel_size, stride, padding);

    assert_approx_eq(&y, &output.into_data());
    assert_eq!(indices, output_indices.into_data());
}

#[test]
fn test_max_pool1d_complex() {
    let kernel_size = 4;
    let padding = 2;
    let stride = 1;

    let x = tensor3(&[0.5388, 0.0676, 0.7122, 0.8316, 0.0653], [1, 1, 5]);
    let indices: Vec<i64> = vec![0, 2, 3, 3, 3, 3];
    let y = [0.5388, 0.7122, 0.8316, 0.8316, 0.8316, 0.8316];

    let (output, output_indices) = max_pool1d_with_indices(&x, kernel_size, stride, padding);

    assert_approx_eq(&y, &output.into_data());
    assert_eq!(indices, output_indices.into_data());
}

#[test]
fn maxpool1d_test_max_pool1d_simple() {
    let kernel_size = 4;
    let padding = 0;
    let stride = 1;

    let x = tensor3(&[0.9861, 0.5474, 0.4477, 0.0732, 0.3548, 0.8221], [1, 1, 6]);
    let x_grad_expected = [1., 1., 0., 0., 0., 1.];

    let x_grad_actual = backward_of_sum(&x, kernel_size, stride, padding);

    assert_grad_eq(&x_grad_expected, &x_grad_actual);
}

const COMPLEX_INPUT: [f64; 25] = [
    0.5388, 0.0676, 0.7122, 0.8316, 0.0653, 0.9154, 0.1536, 0.9089, 0.8016, 0.7518, 0.2073, 0.0501,
    0.8811, 0.5604, 0.5075, 0.4384, 0.9963, 0.9698, 0.4988, 0.2609, 0.3391, 0.2230, 0.4610, 0.5365,
    0.6880,
];

#[test]
fn maxpool1d_test_max_pool1d_complex() {
    let kernel_size = 4;
    let padding = 0;
    let stride = 1;

    let x = tensor3(&COMPLEX_INPUT, [1, 1, 25]);
    let x_grad_expected = [
        0., 0., 0., 2., 0., 4., 0., 2., 1., 0., 0., 0., 4., 0., 0., 0., 4., 1., 1., 0., 0., 0., 1.,
        1., 1.,
    ];

    let x_grad_actual = backward_of_sum(&x, kernel_size, stride, padding);

    assert_grad_eq(&x_grad_expected, &x_grad_actual);
}

#[test]
fn test_max_pool1d_complex_with_padding() {
    let kernel_size = 4;
    let padding = 2;
    let stride = 1;

    let x = tensor3(&COMPLEX_INPUT, [1, 1, 25]);
    let x_grad_expected = [
        1., 0., 1., 2., 0., 4., 0., 2., 1., 0., 0., 0., 4., 0., 0., 0., 4., 1., 1., 0., 0., 0., 1.,
        1., 3.,
    ];

    let x_grad_actual = backward_of_sum(&x, kernel_size, stride, padding);

    assert_grad_eq(&x_grad_expected, &x_grad_actual);
}

#[test]
fn max_pool1d_gradients_add_up_where_windows_share_a_maximum() {
    let x = Tensor::from_data(vec![5, 1, 2], vec![1, 1, 3]).unwrap();
    let (output, indices) = max_pool1d_with_indices(&x, 2, 1, 1);
    assert_eq!(output.into_data(), vec![5, 5, 2, 2]);
    assert_eq!(indices.into_data(), vec![0, 0, 2, 2]);
    assert_eq!(backward_of_sum(&x, 2, 1, 1), vec![2, 0, 2]);
}

#[test]
fn max_pool1d_keeps_the_first_of_equal_maxima() {
    let x = Tensor::from_data(vec![3, 3, 3], vec![1, 1, 3]).unwrap();
    let (_, indices) = max_pool1d_with_indices(&x, 3, 1, 0);
    assert_eq!(indices.into_data(), vec![0]);
}

#[test]
fn avg_pool1d_counts_padding_as_zero() {
    let x = Tensor::from_data(vec![2, 4, 6, 8], vec![1, 1, 4]).unwrap();
    let y = burn_import::pool::avg_pool1d(&x, 3, 1, 1);
    assert_eq!(y.shape(), vec![1, 1, 4]);
    assert_eq!(y.into_data(), vec![2, 4, 6, 4]);
}

#[test]
fn adaptive_avg_pool1d_covers_the_row() {
    let x = Tensor::from_data(vec![1, 2, 3, 4, 5, 10, 20, 30, 40, 50], vec![1, 2, 5]).unwrap();
    let y = burn_import::pool::adaptive_avg_pool1d(&x, 2);
    assert_eq!(y.shape(), vec![1, 2, 2]);
    assert_eq!(y.into_data(), vec![2, 4, 20, 40]);
}

#[test]
fn avg_pool1d_backward_shares_gradients() {
    let x = Tensor::from_data(vec![2, 4, 6, 8], vec![1, 1, 4]).unwrap();
    let grad = Tensor::full(vec![1, 1, 4], 3);
    let g = burn_import::pool::avg_pool1d_backward(&x, &grad, 3, 1, 1);
    assert_eq!(g.into_data(), vec![2, 3, 3, 2]);
}

#[test]
fn adaptive_avg_pool1d_backward_shares_gradients() {
    let x = Tensor::from_data(vec![1, 2, 3, 4, 5], vec![1, 1, 5]).unwrap();
    let grad = Tensor::from_data(vec![3, 6], vec![1, 1, 2]).unwrap();
    let g = burn_import::pool::adaptive_avg_pool1d_backward(&x, &grad);
    assert_eq!(g.into_data(), vec![1, 1, 3, 2, 2]);
}
