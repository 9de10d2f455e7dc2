//! One-dimensional max pooling over tensors of shape
//! `[batch, channels, length]`, with the indices of the maxima and the
//! gradient that flows back through them.
use vstd::prelude::*;

use crate::tensor::{num_elements, seq_sum, trunc_div, Tensor};

verus! {

/// The number of windows over a padded row.
pub open spec fn pool_out_len(length: int, kernel_size: int, stride: int, padding: int) -> int {
    (length + 2 * padding - kernel_size) / stride + 1
}

/// First position of window `o` inside the row.
pub open spec fn window_lo(o: int, stride: int, padding: int) -> int {
    if o * stride - padding < 0 {
        0
    } else {
        o * stride - padding
    }
}

/// One past the last position of window `o` inside the row.
pub open spec fn window_hi(o: int, kernel_size: int, stride: int, padding: int, length: int) -> int {
    if o * stride - padding + kernel_size > length {
        length
    } else {
        o * stride - padding + kernel_size
    }
}

/// The first position of a largest element among `row[lo..hi]`.
pub open spec fn first_argmax(row: Seq<i64>, lo: int, hi: int) -> int
    decreases hi - lo,
{
    if hi - lo <= 1 {
        lo
    } else {
        let m = first_argmax(row, lo, hi - 1);
        if row[hi - 1] > row[m] {
            hi - 1
        } else {
            m
        }
    }
}

/// Row `r` of a tensor whose rows have `length` elements.
pub open spec fn row_of(data: Seq<i64>, r: int, length: int) -> Seq<i64> {
    data.subrange(r * length, r * length + length)
}

/// Whether the pooling parameters fit the input: every window meets the
/// row, and every size fits in `usize`.
pub open spec fn pool_params_ok(x: Tensor<i64>, kernel_size: usize, stride: usize, padding: usize) -> bool {
    &&& x.wf()
    &&& x.shape@.len() == 3
    &&& x.shape@[2] >= 1
    &&& x.shape@[2] <= i64::MAX
    &&& kernel_size >= 1
    &&& stride >= 1
    &&& padding < kernel_size
    &&& x.shape@[2] + 2 * padding >= kernel_size
    &&& x.shape@[2] + 2 * padding <= usize::MAX
    &&& x.shape@[0] * x.shape@[1] * pool_out_len(x.shape@[2] as int, kernel_size as int, stride as int, padding as int) <= usize::MAX
}

/// The position of the maximum of window `o` of row `r`.
pub open spec fn pool_arg(x: Tensor<i64>, kernel_size: usize, stride: usize, padding: usize, r: int, o: int) -> int {
    let l = x.shape@[2] as int;
    first_argmax(
        row_of(x.data@, r, l),
        window_lo(o, stride as int, padding as int),
        window_hi(o, kernel_size as int, stride as int, padding as int, l),
    )
}

/// A three-dimensional shape holds the product of its dimensions.
proof fn lemma_num_elements3(s: Seq<usize>)
    requires
        s.len() == 3,
    ensures
        num_elements(s) == s[0] * s[1] * s[2],
{
    let s2 = s.drop_last();
    let s1 = s2.drop_last();
    let s0 = s1.drop_last();
    assert(s0.len() == 0);
    assert(num_elements(s0) == 1);
    let a = num_elements(s0) as int;
    assert(a * (s[0] as int) == s[0]) by (nonlinear_arith)
        requires
            a == 1,
    ;
    assert(s1.last() == s[0]);
    assert(num_elements(s1) == s[0]);
    assert(s2.last() == s[1]);
    assert(num_elements(s2) == s[0] * s[1]);
    assert(s.last() == s[2]);
}

/// Position `o` of row `r` lies before row `r + 1`.
proof fn lemma_row_index(r: int, o: int, rows: int, n: int)
    requires
        0 <= r < rows,
        0 <= o < n,
    ensures
        0 <= r * n + o < rows * n,
        r * n + o < (r + 1) * n,
        r * n + n <= rows * n,
{
    assert(0 <= r * n + o < rows * n) by (nonlinear_arith)
        requires
            0 <= r < rows,
            0 <= o < n,
    ;
    assert(r * n + n <= rows * n) by (nonlinear_arith)
        requires
            0 <= r < rows,
            0 <= n,
    ;
    assert((r + 1) * n == r * n + n) by (nonlinear_arith);
}

/// Every window of a well-parametrised pooling meets the row.
proof fn lemma_window_in_row(l: int, k: int, s: int, p: int, o: int)
    requires
        l >= 1,
        k >= 1,
        s >= 1,
        0 <= p < k,
        l + 2 * p >= k,
        0 <= o < pool_out_len(l, k, s, p),
    ensures
        0 <= window_lo(o, s, p) < window_hi(o, k, s, p, l) <= l,
        0 <= o * s <= l + 2 * p - k,
{
    let n = l + 2 * p - k;
    assert(o <= n / s);
    assert(o * s <= n) by (nonlinear_arith)
        requires
            o <= n / s,
            s >= 1,
            n >= 0,
            o >= 0,
    ;
    assert(o * s >= 0) by (nonlinear_arith)
        requires
            o >= 0,
            s >= 1,
    ;
}

/// The first position of a largest element lies in the window.
proof fn lemma_first_argmax_in_range(row: Seq<i64>, lo: int, hi: int)
    requires
        lo < hi,
    ensures
        lo <= first_argmax(row, lo, hi) < hi,
    decreases hi - lo,
{
    if hi - lo > 1 {
        lemma_first_argmax_in_range(row, lo, hi - 1);
    }
}

/// Finds the first position of a largest element of `data[base + lo..base + hi]`,
/// relative to `base`.
fn window_argmax(data: &Vec<i64>, base: usize, length: usize, lo: usize, hi: usize) -> (r: usize)
    requires
        lo < hi <= length,
        base + length <= data@.len(),
    ensures
        r == first_argmax(data@.subrange(base as int, base + length), lo as int, hi as int),
        lo <= r < hi,
{
    let ghost row = data@.subrange(base as int, base + length);
    let total = data.len();
    let mut best = lo;
    let mut j = lo + 1;
    while j < hi
        invariant
            lo < j <= hi,
            hi <= length,
            total == data@.len(),
            base + length <= data@.len(),
            row == data@.subrange(base as int, base + length),
            best == first_argmax(row, lo as int, j as int),
            lo <= best < j,
        decreases hi - j,
    {
        assert(row[j as int] == data@[base + j]);
        assert(row[best as int] == data@[base + best]);
        if data[base + j] > data[base + best] {
            best = j;
        }
        j = j + 1;
    }
    best
}

/// Max pooling over windows of `kernel_size` elements, `stride` apart, on
/// rows padded with `padding` positions on each side; also gives, for each
/// window, the position of its maximum in the row (the first one on ties).
pub fn max_pool1d_with_indices(x: &Tensor<i64>, kernel_size: usize, stride: usize, padding: usize) -> (r: (Tensor<i64>, Tensor<i64>))
    requires
        pool_params_ok(*x, kernel_size, stride, padding),
    ensures
        ({
            let (out, idx) = r;
            let n = pool_out_len(x.shape@[2] as int, kernel_size as int, stride as int, padding as int);
            let rows = x.shape@[0] * x.shape@[1];
            &&& out.wf() && idx.wf()
            &&& out.shape@ == seq![x.shape@[0], x.shape@[1], n as usize]
            &&& idx.shape@ == out.shape@
            &&& forall|row: int, o: int| 0 <= row < rows && 0 <= o < n ==> {
                let a = #[trigger] pool_arg(*x, kernel_size, stride, padding, row, o);
                &&& out.data@[row * n + o] == row_of(x.data@, row, x.shape@[2] as int)[a]
                &&& idx.data@[row * n + o] == a
            }
        }),
{
    let b = x.shape[0];
    let c = x.shape[1];
    let l = x.shape[2];
    let n = (l + 2 * padding - kernel_size) / stride + 1;
    let ghost gn = n as int;
    proof {
        lemma_num_elements3(x.shape@);
        assert(b * c <= usize::MAX) by (nonlinear_arith)
            requires
                b * c * n <= usize::MAX,
                n >= 1,
        ;
        assert(b * c * l == (b * c) * l);
    }
    let rows = b * c;
    let total = x.data.len();
    let mut out: Vec<i64> = Vec::new();
    let mut idx: Vec<i64> = Vec::new();
    let mut r: usize = 0;
    while r < rows
        invariant
            pool_params_ok(*x, kernel_size, stride, padding),
            b == x.shape@[0],
            c == x.shape@[1],
            l == x.shape@[2],
            rows == b * c,
            n == pool_out_len(l as int, kernel_size as int, stride as int, padding as int),
            rows * n <= usize::MAX,
            x.data@.len() == rows * l,
            total == x.data@.len(),
            r <= rows,
            out@.len() == r * n,
            idx@.len() == r * n,
            forall|row: int, o: int| 0 <= row < r && 0 <= o < n ==> {
                let a = #[trigger] pool_arg(*x, kernel_size, stride, padding, row, o);
                &&& out@[row * n + o] == row_of(x.data@, row, l as int)[a]
                &&& idx@[row * n + o] == a
            },
        decreases rows - r,
    {
        proof {
            lemma_row_index(r as int, 0, rows as int, l as int);
            lemma_row_index(r as int, 0, rows as int, n as int);
        }
        let base = r * l;
        let mut o: usize = 0;
        while o < n
            invariant
                pool_params_ok(*x, kernel_size, stride, padding),
                l == x.shape@[2],
                rows == b * c,
                n == pool_out_len(l as int, kernel_size as int, stride as int, padding as int),
                rows * n <= usize::MAX,
                x.data@.len() == rows * l,
                total == x.data@.len(),
                r < rows,
                base == r * l,
                base + l <= x.data@.len(),
                o <= n,
                out@.len() == r * n + o,
                idx@.len() == r * n + o,
                forall|row: int, o2: int| 0 <= row < r && 0 <= o2 < n ==> {
                    let a = #[trigger] pool_arg(*x, kernel_size, stride, padding, row, o2);
                    &&& out@[row * n + o2] == row_of(x.data@, row, l as int)[a]
                    &&& idx@[row * n + o2] == a
                },
                forall|o2: int| 0 <= o2 < o ==> {
                    let a = #[trigger] pool_arg(*x, kernel_size, stride, padding, r as int, o2);
                    &&& out@[r * n + o2] == row_of(x.data@, r as int, l as int)[a]
                    &&& idx@[r * n + o2] == a
                },
            decreases n - o,
        {
            proof {
                lemma_window_in_row(l as int, kernel_size as int, stride as int, padding as int, o as int);
                lemma_row_index(r as int, o as int, rows as int, n as int);
            }
            let start = o * stride;
            let lo = if start < padding { 0 } else { start - padding };
            let hi = if start + kernel_size > l + padding { l } else { start + kernel_size - padding };
            let a = window_argmax(&x.data, base, l, lo, hi);
            assert(a == pool_arg(*x, kernel_size, stride, padding, r as int, o as int));
            assert(row_of(x.data@, r as int, l as int)[a as int] == x.data@[base + a]);
            out.push(x.data[base + a]);
            idx.push(a as i64);
            proof {
                assert forall|row: int, o2: int| 0 <= row < r && 0 <= o2 < n implies {
                    let a = #[trigger] pool_arg(*x, kernel_size, stride, padding, row, o2);
                    &&& out@[row * n + o2] == row_of(x.data@, row, l as int)[a]
                    &&& idx@[row * n + o2] == a
                } by {
                    lemma_row_index(row, o2, r as int, n as int);
                }
            }
            o = o + 1;
        }
        proof {
            assert((r + 1) * n == r * n + n) by (nonlinear_arith);
            assert forall|row: int, o2: int| 0 <= row < r + 1 && 0 <= o2 < n implies {
                let a = #[trigger] pool_arg(*x, kernel_size, stride, padding, row, o2);
                &&& out@[row * n + o2] == row_of(x.data@, row, l as int)[a]
                &&& idx@[row * n + o2] == a
            } by {
                if row == r {
                }
            }
        }
        r = r + 1;
    }
    let mut shape: Vec<usize> = Vec::new();
    shape.push(b);
    shape.push(c);
    shape.push(n);
    let mut shape2: Vec<usize> = Vec::new();
    shape2.push(b);
    shape2.push(c);
    shape2.push(n);
    proof {
        assert(shape@ =~= seq![b, c, n]);
        assert(shape2@ =~= seq![b, c, n]);
        lemma_num_elements3(shape@);
        lemma_num_elements3(shape2@);
        assert(b * c * n == rows * n);
    }
    (Tensor { shape, data: out }, Tensor { shape: shape2, data: idx })
}

/// Max pooling over windows of `kernel_size` elements, `stride` apart, on
/// rows padded with `padding` positions on each side.
pub fn max_pool1d(x: &Tensor<i64>, kernel_size: usize, stride: usize, padding: usize) -> (r: Tensor<i64>)
    requires
        pool_params_ok(*x, kernel_size, stride, padding),
    ensures
        ({
            let n = pool_out_len(x.shape@[2] as int, kernel_size as int, stride as int, padding as int);
            let rows = x.shape@[0] * x.shape@[1];
            &&& r.wf()
            &&& r.shape@ == seq![x.shape@[0], x.shape@[1], n as usize]
            &&& forall|row: int, o: int| 0 <= row < rows && 0 <= o < n ==>
                r.data@[row * n + o] == row_of(x.data@, row, x.shape@[2] as int)[#[trigger] pool_arg(*x, kernel_size, stride, padding, row, o)]
        }),
{
    let (out, _) = max_pool1d_with_indices(x, kernel_size, stride, padding);
    out
}

/// The sum of the gradients of the windows whose maximum sits at position
/// `j`.
pub open spec fn grad_at(indices: Seq<i64>, grad: Seq<i64>, j: int) -> int
    decreases indices.len(),
{
    if indices.len() == 0 || grad.len() < indices.len() {
        0
    } else {
        grad_at(indices.drop_last(), grad.subrange(0, grad.len() - 1), j) + if indices.last() == j {
            grad[grad.len() - 1] as int
        } else {
            0
        }
    }
}

fn row_grad(indices: &Vec<i64>, grad: &Vec<i64>, base: usize, n: usize, j: usize) -> (r: i128)
    requires
        base + n <= indices@.len(),
        indices@.len() == grad@.len(),
        j <= i64::MAX,
    ensures
        r == grad_at(
            indices@.subrange(base as int, base + n),
            grad@.subrange(base as int, base + n),
            j as int,
        ),
{
    let total = indices.len();
    let mut acc: i128 = 0;
    let mut o: usize = 0;
    while o < n
        invariant
            o <= n,
            j <= i64::MAX,
            total == indices@.len(),
            base + n <= indices@.len(),
            indices@.len() == grad@.len(),
            acc == grad_at(
                indices@.subrange(base as int, base + o),
                grad@.subrange(base as int, base + o),
                j as int,
            ),
            (i64::MIN as int) * (o as int) <= acc <= (i64::MAX as int) * (o as int),
        decreases n - o,
    {
        let ghost is = indices@.subrange(base as int, base + o + 1);
        let ghost gs = grad@.subrange(base as int, base + o + 1);
        proof {
            assert(is.drop_last() =~= indices@.subrange(base as int, base + o));
            assert(gs.subrange(0, gs.len() - 1) =~= grad@.subrange(base as int, base + o));
            assert(is.last() == indices@[base + o]);
            assert(gs[gs.len() - 1] == grad@[base + o]);
            assert(grad_at(is, gs, j as int) == acc + if is.last() == j {
                gs[gs.len() - 1] as int
            } else {
                0
            });
        }
        if indices[base + o] == j as i64 {
            acc = acc + grad[base + o] as i128;
        }
        o = o + 1;
    }
    acc
}

/// The gradient of max pooling with respect to its input: each window passes
/// its output gradient to the position of its maximum, and the gradients that
/// meet at one position add up.
pub fn max_pool1d_with_indices_backward(
    x: &Tensor<i64>,
    kernel_size: usize,
    stride: usize,
    padding: usize,
    output_grad: &Tensor<i64>,
    indices: &Tensor<i64>,
) -> (r: Tensor<i64>)
    requires
        pool_params_ok(*x, kernel_size, stride, padding),
        output_grad.wf(),
        indices.shape@ == output_grad.shape@,
        indices.data@.len() == output_grad.data@.len(),
        output_grad.shape@ == seq![
            x.shape@[0],
            x.shape@[1],
            pool_out_len(x.shape@[2] as int, kernel_size as int, stride as int, padding as int) as usize,
        ],
        forall|row: int, j: int|
            0 <= row < x.shape@[0] * x.shape@[1] && 0 <= j < x.shape@[2] ==> i64::MIN <= #[trigger] grad_at(
                row_of(indices.data@, row, pool_out_len(x.shape@[2] as int, kernel_size as int, stride as int, padding as int)),
                row_of(output_grad.data@, row, pool_out_len(x.shape@[2] as int, kernel_size as int, stride as int, padding as int)),
                j,
            ) <= i64::MAX,
    ensures
        r.wf(),
        r.shape@ == x.shape@,
        forall|row: int, j: int|
            0 <= row < x.shape@[0] * x.shape@[1] && 0 <= j < x.shape@[2] ==> r.data@[row * x.shape@[2] + j]
                == #[trigger] grad_at(
                row_of(indices.data@, row, pool_out_len(x.shape@[2] as int, kernel_size as int, stride as int, padding as int)),
                row_of(output_grad.data@, row, pool_out_len(x.shape@[2] as int, kernel_size as int, stride as int, padding as int)),
                j,
            ),
{
    let b = x.shape[0];
    let c = x.shape[1];
    let l = x.shape[2];
    let n = (l + 2 * padding - kernel_size) / stride + 1;
    proof {
        lemma_num_elements3(x.shape@);
        lemma_num_elements3(output_grad.shape@);
        assert(b * c <= usize::MAX) by (nonlinear_arith)
            requires
                b * c * n <= usize::MAX,
                n >= 1,
        ;
    }
    let rows = b * c;
    let gtotal = output_grad.data.len();
    let mut data: Vec<i64> = Vec::new();
    let mut r: usize = 0;
    while r < rows
        invariant
            rows == x.shape@[0] * x.shape@[1],
            l == x.shape@[2],
            n == pool_out_len(l as int, kernel_size as int, stride as int, padding as int),
            n >= 1,
            l <= i64::MAX,
            gtotal == output_grad.data@.len(),
            output_grad.data@.len() == rows * n,
            indices.data@.len() == output_grad.data@.len(),
            x.data@.len() == rows * l,
            r <= rows,
            data@.len() == r * l,
            forall|row: int, j: int|
                0 <= row < rows && 0 <= j < l ==> i64::MIN <= #[trigger] grad_at(
                    row_of(indices.data@, row, n as int),
                    row_of(output_grad.data@, row, n as int),
                    j,
                ) <= i64::MAX,
            forall|row: int, j: int|
                0 <= row < r && 0 <= j < l ==> data@[row * l + j] == #[trigger] grad_at(
                    row_of(indices.data@, row, n as int),
                    row_of(output_grad.data@, row, n as int),
                    j,
                ),
        decreases rows - r,
    {
        proof {
            lemma_row_index(r as int, 0, rows as int, n as int);
        }
        let base = r * n;
        let mut j: usize = 0;
        while j < l
            invariant
                rows == x.shape@[0] * x.shape@[1],
                l == x.shape@[2],
                l <= i64::MAX,
                gtotal == output_grad.data@.len(),
                output_grad.data@.len() == rows * n,
                indices.data@.len() == output_grad.data@.len(),
                r < rows,
                base == r * n,
                base + n <= output_grad.data@.len(),
                j <= l,
                data@.len() == r * l + j,
                forall|row: int, j2: int|
                    0 <= row < rows && 0 <= j2 < l ==> i64::MIN <= #[trigger] grad_at(
                        row_of(indices.data@, row, n as int),
                        row_of(output_grad.data@, row, n as int),
                        j2,
                    ) <= i64::MAX,
                forall|row: int, j2: int|
                    0 <= row < r && 0 <= j2 < l ==> data@[row * l + j2] == #[trigger] grad_at(
                        row_of(indices.data@, row, n as int),
                        row_of(output_grad.data@, row, n as int),
                        j2,
                    ),
                forall|j2: int|
                    0 <= j2 < j ==> data@[r * l + j2] == #[trigger] grad_at(
                        row_of(indices.data@, r as int, n as int),
                        row_of(output_grad.data@, r as int, n as int),
                        j2,
                    ),
            decreases l - j,
        {
            let v = row_grad(&indices.data, &output_grad.data, base, n, j);
            assert(v == grad_at(
                row_of(indices.data@, r as int, n as int),
                row_of(output_grad.data@, r as int, n as int),
                j as int,
            ));
            data.push(v as i64);
            proof {
                assert forall|row: int, j2: int| 0 <= row < r && 0 <= j2 < l implies data@[row * l + j2]
                    == #[trigger] grad_at(
                    row_of(indices.data@, row, n as int),
                    row_of(output_grad.data@, row, n as int),
                    j2,
                ) by {
                    lemma_row_index(row, j2, r as int, l as int);
                }
            }
            j = j + 1;
        }
        proof {
            assert((r + 1) * l == r * l + l) by (nonlinear_arith);
        }
        r = r + 1;
    }
    let shape = x.shape();
    proof {
        assert(b * c * l == rows * l);
    }
    Tensor { shape, data }
}


/// The sum of `row[lo..hi]`.
pub open spec fn window_sum(row: Seq<i64>, lo: int, hi: int) -> int {
    seq_sum(row.subrange(lo, hi))
}

fn sum_window(data: &Vec<i64>, base: usize, length: usize, lo: usize, hi: usize) -> (r: i128)
    requires
        lo <= hi <= length,
        base + length <= data@.len(),
    ensures
        r == window_sum(data@.subrange(base as int, base + length), lo as int, hi as int),
{
    let ghost row = data@.subrange(base as int, base + length);
    let total = data.len();
    let mut acc: i128 = 0;
    let mut j = lo;
    while j < hi
        invariant
            lo <= j <= hi,
            hi <= length,
            total == data@.len(),
            base + length <= data@.len(),
            row == data@.subrange(base as int, base + length),
            acc == seq_sum(row.subrange(lo as int, j as int)),
            (i64::MIN as int) * (j - lo) <= acc <= (i64::MAX as int) * (j - lo),
        decreases hi - j,
    {
        proof {
            assert(row.subrange(lo as int, j + 1).drop_last() =~= row.subrange(lo as int, j as int));
            assert(row[j as int] == data@[base + j]);
        }
        acc = acc + data[base + j] as i128;
        j = j + 1;
    }
    acc
}

/// The average of window `o` of row `r`: the sum of the elements it covers
/// divided, rounding toward zero, by the kernel size (padding counts as zero).
pub open spec fn avg_at(x: Tensor<i64>, kernel_size: usize, stride: usize, padding: usize, r: int, o: int) -> int {
    let l = x.shape@[2] as int;
    trunc_div(
        window_sum(
            row_of(x.data@, r, l),
            window_lo(o, stride as int, padding as int),
            window_hi(o, kernel_size as int, stride as int, padding as int, l),
        ),
        kernel_size as int,
    )
}

/// Average pooling over windows of `kernel_size` elements, `stride` apart, on
/// rows padded with `padding` zeros on each side.
pub fn avg_pool1d(x: &Tensor<i64>, kernel_size: usize, stride: usize, padding: usize) -> (r: Tensor<i64>)
    requires
        pool_params_ok(*x, kernel_size, stride, padding),
        forall|row: int, o: int|
            0 <= row < x.shape@[0] * x.shape@[1] && 0 <= o < pool_out_len(x.shape@[2] as int, kernel_size as int, stride as int, padding as int)
                ==> i64::MIN <= #[trigger] avg_at(*x, kernel_size, stride, padding, row, o) <= i64::MAX,
    ensures
        ({
            let n = pool_out_len(x.shape@[2] as int, kernel_size as int, stride as int, padding as int);
            let rows = x.shape@[0] * x.shape@[1];
            &&& r.wf()
            &&& r.shape@ == seq![x.shape@[0], x.shape@[1], n as usize]
            &&& forall|row: int, o: int| 0 <= row < rows && 0 <= o < n ==>
                r.data@[row * n + o] == #[trigger] avg_at(*x, kernel_size, stride, padding, row, o)
        }),
{
    let b = x.shape[0];
    let c = x.shape[1];
    let l = x.shape[2];
    let n = (l + 2 * padding - kernel_size) / stride + 1;
    proof {
        lemma_num_elements3(x.shape@);
        assert(b * c <= usize::MAX) by (nonlinear_arith)
            requires
                b * c * n <= usize::MAX,
                n >= 1,
        ;
    }
    let rows = b * c;
    let total = x.data.len();
    let mut out: Vec<i64> = Vec::new();
    let mut r: usize = 0;
    while r < rows
        invariant
            pool_params_ok(*x, kernel_size, stride, padding),
            forall|row: int, o: int|
                0 <= row < x.shape@[0] * x.shape@[1] && 0 <= o < pool_out_len(x.shape@[2] as int, kernel_size as int, stride as int, padding as int)
                    ==> i64::MIN <= #[trigger] avg_at(*x, kernel_size, stride, padding, row, o) <= i64::MAX,
            b == x.shape@[0],
            c == x.shape@[1],
            l == x.shape@[2],
            rows == b * c,
            n == pool_out_len(l as int, kernel_size as int, stride as int, padding as int),
            rows * n <= usize::MAX,
            x.data@.len() == rows * l,
            total == x.data@.len(),
            r <= rows,
            out@.len() == r * n,
            forall|row: int, o: int| 0 <= row < r && 0 <= o < n ==>
                out@[row * n + o] == #[trigger] avg_at(*x, kernel_size, stride, padding, row, o),
        decreases rows - r,
    {
        proof {
            lemma_row_index(r as int, 0, rows as int, l as int);
            lemma_row_index(r as int, 0, rows as int, n as int);
        }
        let base = r * l;
        let mut o: usize = 0;
        while o < n
            invariant
                pool_params_ok(*x, kernel_size, stride, padding),
                forall|row: int, o2: int|
                    0 <= row < x.shape@[0] * x.shape@[1] && 0 <= o2 < pool_out_len(x.shape@[2] as int, kernel_size as int, stride as int, padding as int)
                        ==> i64::MIN <= #[trigger] avg_at(*x, kernel_size, stride, padding, row, o2) <= i64::MAX,
                b == x.shape@[0],
                c == x.shape@[1],
                l == x.shape@[2],
                rows == b * c,
                n == pool_out_len(l as int, kernel_size as int, stride as int, padding as int),
                rows * n <= usize::MAX,
                x.data@.len() == rows * l,
                total == x.data@.len(),
                r < rows,
                base == r * l,
                base + l <= x.data@.len(),
                o <= n,
                out@.len() == r * n + o,
                forall|row: int, o2: int| 0 <= row < r && 0 <= o2 < n ==>
                    out@[row * n + o2] == #[trigger] avg_at(*x, kernel_size, stride, padding, row, o2),
                forall|o2: int| 0 <= o2 < o ==>
                    out@[r * n + o2] == #[trigger] avg_at(*x, kernel_size, stride, padding, r as int, o2),
            decreases n - o,
        {
            proof {
                lemma_window_in_row(l as int, kernel_size as int, stride as int, padding as int, o as int);
                lemma_row_index(r as int, o as int, rows as int, n as int);
            }
            let start = o * stride;
            let lo = if start < padding { 0 } else { start - padding };
            let hi = if start + kernel_size > l + padding { l } else { start + kernel_size - padding };
            let sum = sum_window(&x.data, base, l, lo, hi);
            let v = sum / (kernel_size as i128);
            proof {
                assert(v == avg_at(*x, kernel_size, stride, padding, r as int, o as int));
            }
            out.push(v as i64);
            proof {
                assert forall|row: int, o2: int| 0 <= row < r && 0 <= o2 < n implies
                    out@[row * n + o2] == #[trigger] avg_at(*x, kernel_size, stride, padding, row, o2) by {
                    lemma_row_index(row, o2, r as int, n as int);
                }
            }
            o = o + 1;
        }
        proof {
            assert((r + 1) * n == r * n + n) by (nonlinear_arith);
        }
        r = r + 1;
    }
    let mut shape: Vec<usize> = Vec::new();
    shape.push(b);
    shape.push(c);
    shape.push(n);
    proof {
        assert(shape@ =~= seq![b, c, n]);
        lemma_num_elements3(shape@);
    }
    Tensor { shape, data: out }
}


/// First position of adaptive window `o` of `size` windows over `length`.
pub open spec fn adaptive_lo(o: int, length: int, size: int) -> int {
    (o * length) / size
}

/// One past the last position of adaptive window `o`.
pub open spec fn adaptive_hi(o: int, length: int, size: int) -> int {
    ((o + 1) * length + size - 1) / size
}

/// The average of adaptive window `o` of row `r`, rounding toward zero.
pub open spec fn adaptive_avg_at(x: Tensor<i64>, output_size: usize, r: int, o: int) -> int {
    let l = x.shape@[2] as int;
    let lo = adaptive_lo(o, l, output_size as int);
    let hi = adaptive_hi(o, l, output_size as int);
    trunc_div(window_sum(row_of(x.data@, r, l), lo, hi), hi - lo)
}

/// Adaptive windows are non-empty and lie inside the row.
proof fn lemma_adaptive_window(o: int, l: int, s: int)
    requires
        0 <= o < s,
        l >= 1,
    ensures
        0 <= adaptive_lo(o, l, s) < adaptive_hi(o, l, s) <= l,
{
    let lo = (o * l) / s;
    let hi = ((o + 1) * l + s - 1) / s;
    assert(0 <= lo) by (nonlinear_arith)
        requires
            o >= 0,
            l >= 1,
            s >= 1,
            lo == (o * l) / s,
    ;
    assert(lo * s <= o * l) by (nonlinear_arith)
        requires
            s >= 1,
            lo == (o * l) / s,
            o * l >= 0,
    ;
    assert(hi * s > (o + 1) * l - 1) by (nonlinear_arith)
        requires
            s >= 1,
            hi == ((o + 1) * l + s - 1) / s,
            (o + 1) * l >= 0,
    ;
    assert(lo < hi) by (nonlinear_arith)
        requires
            lo * s <= o * l,
            hi * s > (o + 1) * l - 1,
            l >= 1,
            s >= 1,
    ;
    assert(hi <= l) by (nonlinear_arith)
        requires
            hi == ((o + 1) * l + s - 1) / s,
            o + 1 <= s,
            l >= 1,
            s >= 1,
    ;
}

/// Average pooling into `output_size` windows per row, each covering the
/// positions from `floor(o * length / output_size)` to
/// `ceil((o + 1) * length / output_size)`.
pub fn adaptive_avg_pool1d(x: &Tensor<i64>, output_size: usize) -> (r: Tensor<i64>)
    requires
        x.wf(),
        x.shape@.len() == 3,
        x.shape@[2] >= 1,
        output_size >= 1,
        (output_size + 1) * x.shape@[2] + output_size <= usize::MAX,
        x.shape@[0] * x.shape@[1] * output_size <= usize::MAX,
        forall|row: int, o: int|
            0 <= row < x.shape@[0] * x.shape@[1] && 0 <= o < output_size ==> i64::MIN <= #[trigger] adaptive_avg_at(
                *x,
                output_size,
                row,
                o,
            ) <= i64::MAX,
    ensures
        r.wf(),
        r.shape@ == seq![x.shape@[0], x.shape@[1], output_size],
        forall|row: int, o: int|
            0 <= row < x.shape@[0] * x.shape@[1] && 0 <= o < output_size ==> r.data@[row * output_size + o]
                == #[trigger] adaptive_avg_at(*x, output_size, row, o),
{
    let b = x.shape[0];
    let c = x.shape[1];
    let l = x.shape[2];
    let n = output_size;
    proof {
        lemma_num_elements3(x.shape@);
        assert(b * c <= usize::MAX) by (nonlinear_arith)
            requires
                b * c * n <= usize::MAX,
                n >= 1,
        ;
    }
    let rows = b * c;
    let total = x.data.len();
    let mut out: Vec<i64> = Vec::new();
    let mut r: usize = 0;
    while r < rows
        invariant
            x.wf(),
            forall|row: int, o: int|
                0 <= row < x.shape@[0] * x.shape@[1] && 0 <= o < output_size ==> i64::MIN <= #[trigger] adaptive_avg_at(*x, output_size, row, o) <= i64::MAX,
            b == x.shape@[0],
            c == x.shape@[1],
            l == x.shape@[2],
            l >= 1,
            n == output_size,
            n >= 1,
            (n + 1) * l + n <= usize::MAX,
            rows == b * c,
            rows * n <= usize::MAX,
            x.data@.len() == rows * l,
            total == x.data@.len(),
            r <= rows,
            out@.len() == r * n,
            forall|row: int, o: int| 0 <= row < r && 0 <= o < n ==>
                out@[row * n + o] == #[trigger] adaptive_avg_at(*x, output_size, row, o),
        decreases rows - r,
    {
        proof {
            lemma_row_index(r as int, 0, rows as int, l as int);
            lemma_row_index(r as int, 0, rows as int, n as int);
        }
        let base = r * l;
        let mut o: usize = 0;
        while o < n
            invariant
                x.wf(),
                forall|row: int, o2: int|
                    0 <= row < x.shape@[0] * x.shape@[1] && 0 <= o2 < output_size ==> i64::MIN <= #[trigger] adaptive_avg_at(*x, output_size, row, o2) <= i64::MAX,
                b == x.shape@[0],
                c == x.shape@[1],
                l == x.shape@[2],
                l >= 1,
                n == output_size,
                (n + 1) * l + n <= usize::MAX,
                rows == b * c,
                rows * n <= usize::MAX,
                x.data@.len() == rows * l,
                total == x.data@.len(),
                r < rows,
                base == r * l,
                base + l <= x.data@.len(),
                o <= n,
                out@.len() == r * n + o,
                forall|row: int, o2: int| 0 <= row < r && 0 <= o2 < n ==>
                    out@[row * n + o2] == #[trigger] adaptive_avg_at(*x, output_size, row, o2),
                forall|o2: int| 0 <= o2 < o ==>
                    out@[r * n + o2] == #[trigger] adaptive_avg_at(*x, output_size, r as int, o2),
            decreases n - o,
        {
            proof {
                lemma_adaptive_window(o as int, l as int, n as int);
                lemma_row_index(r as int, o as int, rows as int, n as int);
                assert((o + 1) * l + n <= (n + 1) * l + n) by (nonlinear_arith)
                    requires
                        o < n,
                        l >= 1,
                ;
                assert(o * l <= (o + 1) * l) by (nonlinear_arith)
                    requires
                        l >= 1,
                        o >= 0,
                ;
            }
            let lo = (o * l) / n;
            let hi = ((o + 1) * l + n - 1) / n;
            let sum = sum_window(&x.data, base, l, lo, hi);
            let v = sum / ((hi - lo) as i128);
            proof {
                assert(v == adaptive_avg_at(*x, output_size, r as int, o as int));
            }
            out.push(v as i64);
            proof {
                assert forall|row: int, o2: int| 0 <= row < r && 0 <= o2 < n implies
                    out@[row * n + o2] == #[trigger] adaptive_avg_at(*x, output_size, row, o2) by {
                    lemma_row_index(row, o2, r as int, n as int);
                }
            }
            o = o + 1;
        }
        proof {
            assert((r + 1) * n == r * n + n) by (nonlinear_arith);
        }
        r = r + 1;
    }
    let mut shape: Vec<usize> = Vec::new();
    shape.push(b);
    shape.push(c);
    shape.push(n);
    proof {
        assert(shape@ =~= seq![b, c, n]);
        lemma_num_elements3(shape@);
    }
    Tensor { shape, data: out }
}


/// The pooling windows that a gradient flows back through.
#[derive(Clone, Copy, Debug, PartialEq, Eq, Structural)]
pub enum AvgWindows {
    /// Windows of `kernel_size` positions, `stride` apart, with `padding`.
    Fixed { kernel_size: usize, stride: usize, padding: usize },
    /// `output_size` adaptive windows.
    Adaptive { output_size: usize },
}

/// First position of window `o` of a row of `length` elements.
pub open spec fn avg_lo(w: AvgWindows, o: int, length: int) -> int {
    match w {
        AvgWindows::Fixed { kernel_size, stride, padding } => window_lo(o, stride as int, padding as int),
        AvgWindows::Adaptive { output_size } => adaptive_lo(o, length, output_size as int),
    }
}

/// One past the last position of window `o`.
pub open spec fn avg_hi(w: AvgWindows, o: int, length: int) -> int {
    match w {
        AvgWindows::Fixed { kernel_size, stride, padding } => window_hi(o, kernel_size as int, stride as int, padding as int, length),
        AvgWindows::Adaptive { output_size } => adaptive_hi(o, length, output_size as int),
    }
}

/// What window `o`, carrying gradient `g`, passes to each position it
/// covers: `g` divided by the kernel size for fixed windows, or by the
/// window's length for adaptive ones, rounding toward zero.
pub open spec fn avg_share(w: AvgWindows, g: int, o: int, length: int) -> int {
    match w {
        AvgWindows::Fixed { kernel_size, .. } => trunc_div(g, kernel_size as int),
        AvgWindows::Adaptive { .. } => trunc_div(g, avg_hi(w, o, length) - avg_lo(w, o, length)),
    }
}

/// The gradient that the first `n` windows pass to position `j`.
pub open spec fn avg_grad_at(w: AvgWindows, grad: Seq<i64>, j: int, length: int, n: int) -> int
    decreases n,
{
    if n <= 0 {
        0
    } else {
        avg_grad_at(w, grad, j, length, n - 1) + if avg_lo(w, n - 1, length) <= j < avg_hi(w, n - 1, length) {
            avg_share(w, grad[n - 1] as int, n - 1, length)
        } else {
            0
        }
    }
}

/// The number of windows per row.
pub open spec fn avg_out_len(w: AvgWindows, length: int) -> int {
    match w {
        AvgWindows::Fixed { kernel_size, stride, padding } => pool_out_len(length, kernel_size as int, stride as int, padding as int),
        AvgWindows::Adaptive { output_size } => output_size as int,
    }
}

/// Whether the windows fit a row of `length` elements.
pub open spec fn avg_windows_ok(w: AvgWindows, length: int) -> bool {
    &&& length >= 1
    &&& match w {
        AvgWindows::Fixed { kernel_size, stride, padding } => {
            &&& kernel_size >= 1
            &&& stride >= 1
            &&& padding < kernel_size
            &&& length + 2 * padding >= kernel_size
            &&& length + 2 * padding <= usize::MAX
        },
        AvgWindows::Adaptive { output_size } => {
            &&& output_size >= 1
            &&& (output_size + 1) * length + output_size <= usize::MAX
        },
    }
}

fn window_bounds(w: AvgWindows, o: usize, length: usize) -> (r: (usize, usize))
    requires
        avg_windows_ok(w, length as int),
        o < avg_out_len(w, length as int),
    ensures
        r.0 == avg_lo(w, o as int, length as int),
        r.1 == avg_hi(w, o as int, length as int),
        0 <= r.0 < r.1 <= length,
{
    match w {
        AvgWindows::Fixed { kernel_size, stride, padding } => {
            proof {
                lemma_window_in_row(length as int, kernel_size as int, stride as int, padding as int, o as int);
            }
            let start = o * stride;
            let lo = if start < padding { 0 } else { start - padding };
            let hi = if start + kernel_size > length + padding { length } else { start + kernel_size - padding };
            (lo, hi)
        },
        AvgWindows::Adaptive { output_size } => {
            let n = output_size;
            proof {
                lemma_adaptive_window(o as int, length as int, n as int);
                assert((o + 1) * length + n <= (n + 1) * length + n) by (nonlinear_arith)
                    requires
                        o < n,
                        length >= 1,
                ;
                assert(o * length <= (o + 1) * length) by (nonlinear_arith)
                    requires
                        length >= 1,
                ;
            }
            ((o * length) / n, ((o + 1) * length + n - 1) / n)
        },
    }
}

fn avg_grad_of(w: AvgWindows, grad: &Vec<i64>, base: usize, n: usize, j: usize, length: usize) -> (r: i128)
    requires
        avg_windows_ok(w, length as int),
        n == avg_out_len(w, length as int),
        base + n <= grad@.len(),
    ensures
        r == avg_grad_at(w, grad@.subrange(base as int, base + n), j as int, length as int, n as int),
{
    let ghost g = grad@.subrange(base as int, base + n);
    let total = grad.len();
    let mut acc: i128 = 0;
    let mut o: usize = 0;
    while o < n
        invariant
            o <= n,
            avg_windows_ok(w, length as int),
            n == avg_out_len(w, length as int),
            base + n <= grad@.len(),
            total == grad@.len(),
            g == grad@.subrange(base as int, base + n),
            acc == avg_grad_at(w, g, j as int, length as int, o as int),
            (i64::MIN as int) * (o as int) <= acc <= (i64::MAX as int) * (o as int),
        decreases n - o,
    {
        let (lo, hi) = window_bounds(w, o, length);
        if lo <= j && j < hi {
            let gv = grad[base + o];
            assert(g[o as int] == gv);
            let divisor: usize = match w {
                AvgWindows::Fixed { kernel_size, .. } => kernel_size,
                AvgWindows::Adaptive { .. } => hi - lo,
            };
            proof {
                lemma_share_bound(gv as int, divisor as int);
            }
            let share = (gv as i128) / (divisor as i128);
            assert(share == avg_share(w, gv as int, o as int, length as int));
            acc = acc + share;
        }
        o = o + 1;
    }
    acc
}

/// A share of a gradient stays within the gradient's own range.
proof fn lemma_share_bound(g: int, d: int)
    requires
        d >= 1,
        i64::MIN <= g <= i64::MAX,
    ensures
        i64::MIN <= trunc_div(g, d) <= i64::MAX,
        -(if g < 0 { -g } else { g }) <= trunc_div(g, d) <= (if g < 0 { -g } else { g }),
{
    if g >= 0 {
        assert(0 <= g / d <= g) by (nonlinear_arith)
            requires
                g >= 0,
                d >= 1,
        ;
    } else {
        assert(0 <= (-g) / d <= -g) by (nonlinear_arith)
            requires
                g < 0,
                d >= 1,
        ;
    }
}


/// The gradient of average pooling with respect to its input `x`: each
/// window shares its output gradient among the positions it covers.
fn avg_backward(x: &Tensor<i64>, w: AvgWindows, grad: &Tensor<i64>) -> (r: Tensor<i64>)
    requires
        x.wf(),
        grad.wf(),
        x.shape@.len() == 3,
        avg_windows_ok(w, x.shape@[2] as int),
        grad.shape@ == seq![x.shape@[0], x.shape@[1], avg_out_len(w, x.shape@[2] as int) as usize],
        forall|row: int, j: int|
            0 <= row < x.shape@[0] * x.shape@[1] && 0 <= j < x.shape@[2] ==> i64::MIN <= #[trigger] avg_grad_at(
                w,
                row_of(grad.data@, row, avg_out_len(w, x.shape@[2] as int)),
                j,
                x.shape@[2] as int,
                avg_out_len(w, x.shape@[2] as int),
            ) <= i64::MAX,
    ensures
        r.wf(),
        r.shape@ == x.shape@,
        forall|row: int, j: int|
            0 <= row < x.shape@[0] * x.shape@[1] && 0 <= j < x.shape@[2] ==> r.data@[row * x.shape@[2] + j]
                == #[trigger] avg_grad_at(
                w,
                row_of(grad.data@, row, avg_out_len(w, x.shape@[2] as int)),
                j,
                x.shape@[2] as int,
                avg_out_len(w, x.shape@[2] as int),
            ),
{
    let b = x.shape[0];
    let c = x.shape[1];
    let l = x.shape[2];
    let n = grad.shape[2];
    proof {
        lemma_num_elements3(x.shape@);
        lemma_num_elements3(grad.shape@);
    }
    let gtotal = grad.data.len();
    let xtotal = x.data.len();
    proof {
        assert(b * c <= usize::MAX) by (nonlinear_arith)
            requires
                b * c * l <= usize::MAX,
                l >= 1,
        ;
    }
    let rows = b * c;
    let mut data: Vec<i64> = Vec::new();
    let mut r: usize = 0;
    while r < rows
        invariant
            rows == x.shape@[0] * x.shape@[1],
            l == x.shape@[2],
            avg_windows_ok(w, l as int),
            n == avg_out_len(w, l as int),
            gtotal == grad.data@.len(),
            grad.data@.len() == rows * n,
            xtotal == x.data@.len(),
            x.data@.len() == rows * l,
            r <= rows,
            data@.len() == r * l,
            forall|row: int, j: int|
                0 <= row < rows && 0 <= j < l ==> i64::MIN <= #[trigger] avg_grad_at(w, row_of(grad.data@, row, n as int), j, l as int, n as int) <= i64::MAX,
            forall|row: int, j: int|
                0 <= row < r && 0 <= j < l ==> data@[row * l + j] == #[trigger] avg_grad_at(w, row_of(grad.data@, row, n as int), j, l as int, n as int),
        decreases rows - r,
    {
        proof {
            lemma_row_index(r as int, 0, rows as int, l as int);
            if n > 0 {
                lemma_row_index(r as int, 0, rows as int, n as int);
            }
            assert(r * n + n <= rows * n) by (nonlinear_arith)
                requires
                    r < rows,
                    n >= 0,
            ;
            assert(r * n <= r * n + n);
        }
        let base = r * n;
        let mut j: usize = 0;
        while j < l
            invariant
                rows == x.shape@[0] * x.shape@[1],
                l == x.shape@[2],
                avg_windows_ok(w, l as int),
                n == avg_out_len(w, l as int),
                gtotal == grad.data@.len(),
                grad.data@.len() == rows * n,
                r < rows,
                base == r * n,
                base + n <= grad.data@.len(),
                j <= l,
                data@.len() == r * l + j,
                forall|row: int, j2: int|
                    0 <= row < rows && 0 <= j2 < l ==> i64::MIN <= #[trigger] avg_grad_at(w, row_of(grad.data@, row, n as int), j2, l as int, n as int) <= i64::MAX,
                forall|row: int, j2: int|
                    0 <= row < r && 0 <= j2 < l ==> data@[row * l + j2] == #[trigger] avg_grad_at(w, row_of(grad.data@, row, n as int), j2, l as int, n as int),
                forall|j2: int|
                    0 <= j2 < j ==> data@[r * l + j2] == #[trigger] avg_grad_at(w, row_of(grad.data@, r as int, n as int), j2, l as int, n as int),
            decreases l - j,
        {
            let v = avg_grad_of(w, &grad.data, base, n, j, l);
            assert(v == avg_grad_at(w, row_of(grad.data@, r as int, n as int), j as int, l as int, n as int));
            data.push(v as i64);
            proof {
                assert forall|row: int, j2: int| 0 <= row < r && 0 <= j2 < l implies data@[row * l + j2]
                    == #[trigger] avg_grad_at(w, row_of(grad.data@, row, n as int), j2, l as int, n as int) by {
                    lemma_row_index(row, j2, r as int, l as int);
                }
            }
            j = j + 1;
        }
        proof {
            assert((r + 1) * l == r * l + l) by (nonlinear_arith);
        }
        r = r + 1;
    }
    let shape = x.shape();
    Tensor { shape, data }
}

/// The gradient of `avg_pool1d` with respect to its input: each position
/// receives, summed over the windows that cover it, their output gradients
/// divided by the kernel size.
pub fn avg_pool1d_backward(x: &Tensor<i64>, grad: &Tensor<i64>, kernel_size: usize, stride: usize, padding: usize) -> (r: Tensor<i64>)
    requires
        x.wf(),
        grad.wf(),
        x.shape@.len() == 3,
        avg_windows_ok(AvgWindows::Fixed { kernel_size, stride, padding }, x.shape@[2] as int),
        grad.shape@ == seq![x.shape@[0], x.shape@[1], pool_out_len(x.shape@[2] as int, kernel_size as int, stride as int, padding as int) as usize],
        forall|row: int, j: int|
            0 <= row < x.shape@[0] * x.shape@[1] && 0 <= j < x.shape@[2] ==> i64::MIN <= #[trigger] avg_grad_at(
                AvgWindows::Fixed { kernel_size, stride, padding },
                row_of(grad.data@, row, pool_out_len(x.shape@[2] as int, kernel_size as int, stride as int, padding as int)),
                j,
                x.shape@[2] as int,
                pool_out_len(x.shape@[2] as int, kernel_size as int, stride as int, padding as int),
            ) <= i64::MAX,
    ensures
        r.wf(),
        r.shape@ == x.shape@,
        forall|row: int, j: int|
            0 <= row < x.shape@[0] * x.shape@[1] && 0 <= j < x.shape@[2] ==> r.data@[row * x.shape@[2] + j]
                == #[trigger] avg_grad_at(
                AvgWindows::Fixed { kernel_size, stride, padding },
                row_of(grad.data@, row, pool_out_len(x.shape@[2] as int, kernel_size as int, stride as int, padding as int)),
                j,
                x.shape@[2] as int,
                pool_out_len(x.shape@[2] as int, kernel_size as int, stride as int, padding as int),
            ),
{
    let w = AvgWindows::Fixed { kernel_size, stride, padding };
    let ghost n = pool_out_len(x.shape@[2] as int, kernel_size as int, stride as int, padding as int);
    assert(avg_out_len(w, x.shape@[2] as int) == n);
    let r = avg_backward(x, w, grad);
    assert forall|row: int, j: int|
        0 <= row < x.shape@[0] * x.shape@[1] && 0 <= j < x.shape@[2] implies r.data@[row * x.shape@[2] + j]
            == #[trigger] avg_grad_at(w, row_of(grad.data@, row, n), j, x.shape@[2] as int, n) by {
        assert(r.data@[row * x.shape@[2] + j] == avg_grad_at(w, row_of(grad.data@, row, avg_out_len(w, x.shape@[2] as int)), j, x.shape@[2] as int, avg_out_len(w, x.shape@[2] as int)));
    }
    r
}

/// The gradient of `adaptive_avg_pool1d` with respect to its input: each
/// position receives, summed over the windows that cover it, their output
/// gradients divided by the window's length.
pub fn adaptive_avg_pool1d_backward(x: &Tensor<i64>, grad: &Tensor<i64>) -> (r: Tensor<i64>)
    requires
        x.wf(),
        grad.wf(),
        x.shape@.len() == 3,
        grad.shape@.len() == 3,
        avg_windows_ok(AvgWindows::Adaptive { output_size: grad.shape@[2] }, x.shape@[2] as int),
        grad.shape@[0] == x.shape@[0],
        grad.shape@[1] == x.shape@[1],
        forall|row: int, j: int|
            0 <= row < x.shape@[0] * x.shape@[1] && 0 <= j < x.shape@[2] ==> i64::MIN <= #[trigger] avg_grad_at(
                AvgWindows::Adaptive { output_size: grad.shape@[2] },
                row_of(grad.data@, row, grad.shape@[2] as int),
                j,
                x.shape@[2] as int,
                grad.shape@[2] as int,
            ) <= i64::MAX,
    ensures
        r.wf(),
        r.shape@ == x.shape@,
        forall|row: int, j: int|
            0 <= row < x.shape@[0] * x.shape@[1] && 0 <= j < x.shape@[2] ==> r.data@[row * x.shape@[2] + j]
                == #[trigger] avg_grad_at(
                AvgWindows::Adaptive { output_size: grad.shape@[2] },
                row_of(grad.data@, row, grad.shape@[2] as int),
                j,
                x.shape@[2] as int,
                grad.shape@[2] as int,
            ),
{
    let w = AvgWindows::Adaptive { output_size: grad.shape[2] };
    assert(grad.shape@ =~= seq![x.shape@[0], x.shape@[1], avg_out_len(w, x.shape@[2] as int) as usize]);
    avg_backward(x, w, grad)
}

} // verus!
