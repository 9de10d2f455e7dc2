//! A dense tensor in row-major order, with the numeric operations of integer
//! tensors.
use vstd::prelude::*;

verus! {

/// The number of elements of a tensor of the given shape.
pub open spec fn num_elements(shape: Seq<usize>) -> nat
    decreases shape.len(),
{
    if shape.len() == 0 {
        1
    } else {
        num_elements(shape.drop_last()) * (shape.last() as nat)
    }
}

/// The device a tensor lives on.
#[derive(Clone, Copy, Debug, PartialEq, Eq, Structural)]
pub struct Device {
    pub id: usize,
}

impl Device {
    /// The default device.
    pub fn cpu() -> (r: Device)
        ensures
            r.id == 0,
    {
        Device { id: 0 }
    }
}

/// A tensor: its shape and its elements in row-major order.
#[derive(Clone, Debug)]
pub struct Tensor<E> {
    pub shape: Vec<usize>,
    pub data: Vec<E>,
}

/// Operations between an element and a scalar.
#[derive(Clone, Copy, Debug, PartialEq, Eq, Structural)]
pub enum ScalarOp {
    Add,
    Sub,
    Mul,
    Div,
}

/// Element-wise comparisons.
#[derive(Clone, Copy, Debug, PartialEq, Eq, Structural)]
pub enum CmpOp {
    Equal,
    Greater,
    GreaterEqual,
    Lower,
    LowerEqual,
}

/// Integer division rounding toward zero.
pub open spec fn trunc_div(a: int, b: int) -> int {
    if a >= 0 {
        a / b
    } else {
        -((-a) / b)
    }
}

/// The exact result of a scalar operation.
pub open spec fn apply_scalar(op: ScalarOp, a: int, b: int) -> int {
    match op {
        ScalarOp::Add => a + b,
        ScalarOp::Sub => a - b,
        ScalarOp::Mul => a * b,
        ScalarOp::Div => trunc_div(a, b),
    }
}

/// Whether a scalar operation is defined on the operands.
pub open spec fn scalar_op_defined(op: ScalarOp, a: i64, b: i64) -> bool {
    &&& op == ScalarOp::Div ==> b != 0
    &&& i64::MIN <= apply_scalar(op, a as int, b as int) <= i64::MAX
}

/// The result of a comparison.
pub open spec fn apply_cmp(op: CmpOp, a: i64, b: i64) -> bool {
    match op {
        CmpOp::Equal => a == b,
        CmpOp::Greater => a > b,
        CmpOp::GreaterEqual => a >= b,
        CmpOp::Lower => a < b,
        CmpOp::LowerEqual => a <= b,
    }
}

/// Element-wise operations of one operand.
#[derive(Clone, Copy, Debug, PartialEq, Eq, Structural)]
pub enum UnaryOp {
    Neg,
    Abs,
    ClampMin(i64),
    ClampMax(i64),
    Clamp(i64, i64),
}

/// The exact result of a one-operand operation.
pub open spec fn apply_unary(op: UnaryOp, a: i64) -> int {
    match op {
        UnaryOp::Neg => -a,
        UnaryOp::Abs => if a < 0 {
            -a
        } else {
            a as int
        },
        UnaryOp::ClampMin(lo) => if a < lo {
            lo as int
        } else {
            a as int
        },
        UnaryOp::ClampMax(hi) => if a > hi {
            hi as int
        } else {
            a as int
        },
        UnaryOp::Clamp(lo, hi) => if a < lo {
            lo as int
        } else if a > hi {
            hi as int
        } else {
            a as int
        },
    }
}

/// The sum of the elements.
pub open spec fn seq_sum(s: Seq<i64>) -> int
    decreases s.len(),
{
    if s.len() == 0 {
        0
    } else {
        seq_sum(s.drop_last()) + s.last()
    }
}

/// The largest element of a non-empty sequence.
pub open spec fn seq_max(s: Seq<i64>) -> i64
    decreases s.len(),
{
    if s.len() <= 1 {
        s[0]
    } else if s.last() > seq_max(s.drop_last()) {
        s.last()
    } else {
        seq_max(s.drop_last())
    }
}

/// The smallest element of a non-empty sequence.
pub open spec fn seq_min(s: Seq<i64>) -> i64
    decreases s.len(),
{
    if s.len() <= 1 {
        s[0]
    } else if s.last() < seq_min(s.drop_last()) {
        s.last()
    } else {
        seq_min(s.drop_last())
    }
}

/// Computes the number of elements of a shape, if it fits in `usize`.
pub fn shape_num_elements(shape: &Vec<usize>) -> (r: Option<usize>)
    ensures
        r matches Some(n) ==> n == num_elements(shape@),
        r is None ==> num_elements(shape@) > usize::MAX,
{
    let mut i: usize = 0;
    while i < shape.len()
        invariant
            i <= shape@.len(),
            forall|j: int| 0 <= j < i ==> shape@[j] != 0,
        decreases shape@.len() - i,
    {
        if shape[i] == 0 {
            proof {
                lemma_num_elements_zero(shape@, i as int);
            }
            return Some(0);
        }
        i = i + 1;
    }
    let mut n: usize = 1;
    let mut i: usize = 0;
    while i < shape.len()
        invariant
            i <= shape@.len(),
            forall|j: int| 0 <= j < shape@.len() ==> shape@[j] != 0,
            n == num_elements(shape@.subrange(0, i as int)),
        decreases shape@.len() - i,
    {
        assert(shape@.subrange(0, i + 1).drop_last() =~= shape@.subrange(0, i as int));
        let d = shape[i];
        if n > usize::MAX / d {
            proof {
                assert(n * d > usize::MAX) by (nonlinear_arith)
                    requires
                        d != 0,
                        n > usize::MAX / d,
                ;
                lemma_num_elements_prefix_grows(shape@, i + 1);
            }
            return None;
        }
        proof {
            assert(n * d <= usize::MAX) by (nonlinear_arith)
                requires
                    d != 0,
                    n <= usize::MAX / d,
            ;
        }
        n = n * d;
        i = i + 1;
    }
    assert(shape@.subrange(0, shape@.len() as int) =~= shape@);
    Some(n)
}

/// With no zero dimension, the product of a prefix never exceeds the
/// product of the whole shape.
proof fn lemma_num_elements_prefix_grows(shape: Seq<usize>, k: int)
    requires
        0 <= k <= shape.len(),
        forall|j: int| 0 <= j < shape.len() ==> shape[j] != 0,
    ensures
        num_elements(shape.subrange(0, k)) <= num_elements(shape),
    decreases shape.len() - k,
{
    if k < shape.len() {
        lemma_num_elements_prefix_grows(shape, k + 1);
        let s = shape.subrange(0, k + 1);
        assert(s.drop_last() =~= shape.subrange(0, k));
        assert(s.last() == shape[k]);
        let a = num_elements(shape.subrange(0, k));
        let d = shape[k] as nat;
        assert(a <= a * d) by (nonlinear_arith)
            requires
                d > 0,
        ;
    } else {
        assert(shape.subrange(0, k) =~= shape);
    }
}

/// A shape with a zero dimension has no element.
proof fn lemma_num_elements_zero(shape: Seq<usize>, k: int)
    requires
        0 <= k < shape.len(),
        shape[k] == 0,
    ensures
        num_elements(shape) == 0,
    decreases shape.len(),
{
    let a = num_elements(shape.drop_last());
    let d = shape.last() as nat;
    if k < shape.len() - 1 {
        lemma_num_elements_zero(shape.drop_last(), k);
        assert(a * d == 0) by (nonlinear_arith)
            requires
                a == 0,
        ;
    } else {
        assert(a * d == 0) by (nonlinear_arith)
            requires
                d == 0,
        ;
    }
}

fn copy_shape(v: &Vec<usize>) -> (r: Vec<usize>)
    ensures
        r@ == v@,
{
    let mut r: Vec<usize> = Vec::new();
    let mut i: usize = 0;
    while i < v.len()
        invariant
            i <= v@.len(),
            r@ =~= v@.subrange(0, i as int),
        decreases v@.len() - i,
    {
        r.push(v[i]);
        i = i + 1;
    }
    assert(v@.subrange(0, v@.len() as int) =~= v@);
    r
}

impl<E> Tensor<E> {
    /// Whether the number of elements matches the shape.
    pub open spec fn wf(&self) -> bool {
        self.data@.len() == num_elements(self.shape@)
    }

    /// A tensor of the given elements and shape; none where the number of
    /// elements does not match the shape.
    pub fn from_data(data: Vec<E>, shape: Vec<usize>) -> (r: Option<Tensor<E>>)
        ensures
            r is Some <==> data@.len() == num_elements(shape@),
            r matches Some(t) ==> t.data@ == data@ && t.shape@ == shape@,
    {
        let len = data.len();
        match shape_num_elements(&shape) {
            Some(n) => if n == len {
                Some(Tensor { shape, data })
            } else {
                None
            },
            None => None,
        }
    }

    /// The shape of the tensor.
    pub fn shape(&self) -> (r: Vec<usize>)
        ensures
            r@ == self.shape@,
    {
        copy_shape(&self.shape)
    }

    /// The elements of the tensor in row-major order.
    pub fn into_data(self) -> (r: Vec<E>)
        ensures
            r@ == self.data@,
    {
        self.data
    }
}

impl Tensor<i64> {
    /// A tensor of the given shape filled with `value`.
    fn filled(shape: Vec<usize>, value: i64) -> (r: Tensor<i64>)
        requires
            num_elements(shape@) <= usize::MAX,
        ensures
            r.wf(),
            r.shape@ == shape@,
            forall|i: int| 0 <= i < r.data@.len() ==> r.data@[i] == value,
    {
        let n = match shape_num_elements(&shape) {
            Some(n) => n,
            None => 0,
        };
        let mut data: Vec<i64> = Vec::new();
        let mut i: usize = 0;
        while i < n
            invariant
                i <= n,
                data@.len() == i,
                forall|j: int| 0 <= j < i ==> data@[j] == value,
            decreases n - i,
        {
            data.push(value);
            i = i + 1;
        }
        Tensor { shape, data }
    }

    /// Converts the tensor into its single element.
    pub fn into_scalar(self) -> (r: i64)
        requires
            self.data@.len() == 1,
        ensures
            r == self.data@[0],
    {
        self.data[0]
    }

    fn map_scalar(&self, op: ScalarOp, other: i64) -> (r: Tensor<i64>)
        requires
            forall|i: int| 0 <= i < self.data@.len() ==> scalar_op_defined(op, #[trigger] self.data@[i], other),
        ensures
            r.shape@ == self.shape@,
            r.data@.len() == self.data@.len(),
            forall|i: int| 0 <= i < r.data@.len() ==> #[trigger] r.data@[i] == apply_scalar(op, self.data@[i] as int, other as int),
    {
        let mut data: Vec<i64> = Vec::new();
        let mut i: usize = 0;
        while i < self.data.len()
            invariant
                i <= self.data@.len(),
                data@.len() == i,
                forall|j: int| 0 <= j < self.data@.len() ==> scalar_op_defined(op, #[trigger] self.data@[j], other),
                forall|j: int| 0 <= j < i ==> #[trigger] data@[j] == apply_scalar(op, self.data@[j] as int, other as int),
            decreases self.data@.len() - i,
        {
            let a = self.data[i];
            assert(scalar_op_defined(op, self.data@[i as int], other));
            let v = match op {
                ScalarOp::Add => a + other,
                ScalarOp::Sub => a - other,
                ScalarOp::Mul => a * other,
                ScalarOp::Div => a / other,
            };
            data.push(v);
            i = i + 1;
        }
        Tensor { shape: copy_shape(&self.shape), data }
    }

    /// Adds `other` to each element.
    pub fn add_scalar(self, other: i64) -> (r: Tensor<i64>)
        requires
            forall|i: int| 0 <= i < self.data@.len() ==> i64::MIN <= #[trigger] self.data@[i] + other <= i64::MAX,
        ensures
            r.shape@ == self.shape@,
            r.data@.len() == self.data@.len(),
            forall|i: int| 0 <= i < r.data@.len() ==> #[trigger] r.data@[i] == self.data@[i] + other,
    {
        self.map_scalar(ScalarOp::Add, other)
    }

    /// Subtracts `other` from each element.
    pub fn sub_scalar(self, other: i64) -> (r: Tensor<i64>)
        requires
            forall|i: int| 0 <= i < self.data@.len() ==> i64::MIN <= #[trigger] self.data@[i] - other <= i64::MAX,
        ensures
            r.shape@ == self.shape@,
            r.data@.len() == self.data@.len(),
            forall|i: int| 0 <= i < r.data@.len() ==> #[trigger] r.data@[i] == self.data@[i] - other,
    {
        self.map_scalar(ScalarOp::Sub, other)
    }

    /// Multiplies each element by `other`.
    pub fn mul_scalar(self, other: i64) -> (r: Tensor<i64>)
        requires
            forall|i: int| 0 <= i < self.data@.len() ==> i64::MIN <= #[trigger] self.data@[i] * other <= i64::MAX,
        ensures
            r.shape@ == self.shape@,
            r.data@.len() == self.data@.len(),
            forall|i: int| 0 <= i < r.data@.len() ==> #[trigger] r.data@[i] == self.data@[i] * other,
    {
        self.map_scalar(ScalarOp::Mul, other)
    }

    /// Divides each element by `other`, rounding toward zero.
    pub fn div_scalar(self, other: i64) -> (r: Tensor<i64>)
        requires
            other != 0,
            forall|i: int| 0 <= i < self.data@.len() ==> i64::MIN <= trunc_div(#[trigger] self.data@[i] as int, other as int) <= i64::MAX,
        ensures
            r.shape@ == self.shape@,
            r.data@.len() == self.data@.len(),
            forall|i: int| 0 <= i < r.data@.len() ==> #[trigger] r.data@[i] == trunc_div(self.data@[i] as int, other as int),
    {
        self.map_scalar(ScalarOp::Div, other)
    }

    fn map_unary(&self, op: UnaryOp) -> (r: Tensor<i64>)
        requires
            forall|i: int| 0 <= i < self.data@.len() ==> i64::MIN <= apply_unary(op, #[trigger] self.data@[i]) <= i64::MAX,
        ensures
            r.shape@ == self.shape@,
            r.data@.len() == self.data@.len(),
            forall|i: int| 0 <= i < r.data@.len() ==> #[trigger] r.data@[i] == apply_unary(op, self.data@[i]),
    {
        let mut data: Vec<i64> = Vec::new();
        let mut i: usize = 0;
        while i < self.data.len()
            invariant
                i <= self.data@.len(),
                data@.len() == i,
                forall|j: int| 0 <= j < self.data@.len() ==> i64::MIN <= apply_unary(op, #[trigger] self.data@[j]) <= i64::MAX,
                forall|j: int| 0 <= j < i ==> #[trigger] data@[j] == apply_unary(op, self.data@[j]),
            decreases self.data@.len() - i,
        {
            let a = self.data[i];
            assert(i64::MIN <= apply_unary(op, self.data@[i as int]) <= i64::MAX);
            let v = match op {
                UnaryOp::Neg => -a,
                UnaryOp::Abs => if a < 0 {
                    -a
                } else {
                    a
                },
                UnaryOp::ClampMin(lo) => if a < lo {
                    lo
                } else {
                    a
                },
                UnaryOp::ClampMax(hi) => if a > hi {
                    hi
                } else {
                    a
                },
                UnaryOp::Clamp(lo, hi) => if a < lo {
                    lo
                } else if a > hi {
                    hi
                } else {
                    a
                },
            };
            data.push(v);
            i = i + 1;
        }
        Tensor { shape: copy_shape(&self.shape), data }
    }

    /// Switches the sign of each element.
    pub fn neg(self) -> (r: Tensor<i64>)
        requires
            forall|i: int| 0 <= i < self.data@.len() ==> #[trigger] self.data@[i] != i64::MIN,
        ensures
            r.shape@ == self.shape@,
            r.data@.len() == self.data@.len(),
            forall|i: int| 0 <= i < r.data@.len() ==> #[trigger] r.data@[i] == -self.data@[i],
    {
        self.map_unary(UnaryOp::Neg)
    }

    /// The absolute value of each element.
    pub fn abs(self) -> (r: Tensor<i64>)
        requires
            forall|i: int| 0 <= i < self.data@.len() ==> #[trigger] self.data@[i] != i64::MIN,
        ensures
            r.shape@ == self.shape@,
            r.data@.len() == self.data@.len(),
            forall|i: int| 0 <= i < r.data@.len() ==> #[trigger] r.data@[i] == if self.data@[i] < 0 {
                -self.data@[i]
            } else {
                self.data@[i] as int
            },
    {
        self.map_unary(UnaryOp::Abs)
    }

    /// Clamps each element between `min` and `max`.
    pub fn clamp(self, min: i64, max: i64) -> (r: Tensor<i64>)
        requires
            min <= max,
        ensures
            r.shape@ == self.shape@,
            r.data@.len() == self.data@.len(),
            forall|i: int| 0 <= i < r.data@.len() ==> #[trigger] r.data@[i] == if self.data@[i] < min {
                min
            } else if self.data@[i] > max {
                max
            } else {
                self.data@[i]
            },
    {
        self.map_unary(UnaryOp::Clamp(min, max))
    }

    /// Raises each element below `min` to `min`.
    pub fn clamp_min(self, min: i64) -> (r: Tensor<i64>)
        ensures
            r.shape@ == self.shape@,
            r.data@.len() == self.data@.len(),
            forall|i: int| 0 <= i < r.data@.len() ==> #[trigger] r.data@[i] == if self.data@[i] < min {
                min
            } else {
                self.data@[i]
            },
    {
        self.map_unary(UnaryOp::ClampMin(min))
    }

    /// Lowers each element above `max` to `max`.
    pub fn clamp_max(self, max: i64) -> (r: Tensor<i64>)
        ensures
            r.shape@ == self.shape@,
            r.data@.len() == self.data@.len(),
            forall|i: int| 0 <= i < r.data@.len() ==> #[trigger] r.data@[i] == if self.data@[i] > max {
                max
            } else {
                self.data@[i]
            },
    {
        self.map_unary(UnaryOp::ClampMax(max))
    }

    /// A tensor of the given shape where each element is zero.
    pub fn zeros(shape: Vec<usize>) -> (r: Tensor<i64>)
        requires
            num_elements(shape@) <= usize::MAX,
        ensures
            r.wf(),
            r.shape@ == shape@,
            forall|i: int| 0 <= i < r.data@.len() ==> r.data@[i] == 0,
    {
        Self::zeros_device(shape, &Device::cpu())
    }

    /// A tensor of the given shape on `device` where each element is zero.
    pub fn zeros_device(shape: Vec<usize>, device: &Device) -> (r: Tensor<i64>)
        requires
            num_elements(shape@) <= usize::MAX,
        ensures
            r.wf(),
            r.shape@ == shape@,
            forall|i: int| 0 <= i < r.data@.len() ==> r.data@[i] == 0,
    {
        Self::filled(shape, 0)
    }

    /// A tensor of the given shape where each element is one.
    pub fn ones(shape: Vec<usize>) -> (r: Tensor<i64>)
        requires
            num_elements(shape@) <= usize::MAX,
        ensures
            r.wf(),
            r.shape@ == shape@,
            forall|i: int| 0 <= i < r.data@.len() ==> r.data@[i] == 1,
    {
        Self::ones_device(shape, &Device::cpu())
    }

    /// A tensor of the given shape on `device` where each element is one.
    pub fn ones_device(shape: Vec<usize>, device: &Device) -> (r: Tensor<i64>)
        requires
            num_elements(shape@) <= usize::MAX,
        ensures
            r.wf(),
            r.shape@ == shape@,
            forall|i: int| 0 <= i < r.data@.len() ==> r.data@[i] == 1,
    {
        Self::filled(shape, 1)
    }

    /// A tensor of the given shape where each element is `fill_value`.
    pub fn full(shape: Vec<usize>, fill_value: i64) -> (r: Tensor<i64>)
        requires
            num_elements(shape@) <= usize::MAX,
        ensures
            r.wf(),
            r.shape@ == shape@,
            forall|i: int| 0 <= i < r.data@.len() ==> r.data@[i] == fill_value,
    {
        Self::full_device(shape, fill_value, &Device::cpu())
    }

    /// A tensor of the given shape on `device` where each element is
    /// `fill_value`.
    pub fn full_device(shape: Vec<usize>, fill_value: i64, device: &Device) -> (r: Tensor<i64>)
        requires
            num_elements(shape@) <= usize::MAX,
        ensures
            r.wf(),
            r.shape@ == shape@,
            forall|i: int| 0 <= i < r.data@.len() ==> r.data@[i] == fill_value,
    {
        Self::filled(shape, fill_value)
    }

    fn total(&self) -> (r: i128)
        ensures
            r == seq_sum(self.data@),
    {
        let mut acc: i128 = 0;
        let mut i: usize = 0;
        while i < self.data.len()
            invariant
                i <= self.data@.len(),
                acc == seq_sum(self.data@.subrange(0, i as int)),
                (i64::MIN as int) * (i as int) <= acc <= (i64::MAX as int) * (i as int),
            decreases self.data@.len() - i,
        {
            assert(self.data@.subrange(0, i + 1).drop_last() =~= self.data@.subrange(0, i as int));
            acc = acc + self.data[i] as i128;
            i = i + 1;
        }
        assert(self.data@.subrange(0, self.data@.len() as int) =~= self.data@);
        acc
    }

    /// The sum of all elements, as a tensor of one element.
    pub fn sum(self) -> (r: Tensor<i64>)
        requires
            i64::MIN <= seq_sum(self.data@) <= i64::MAX,
        ensures
            r.wf(),
            r.shape@ == seq![1usize],
            r.data@ == seq![seq_sum(self.data@) as i64],
    {
        let t = self.total();
        let mut shape: Vec<usize> = Vec::new();
        shape.push(1);
        let mut data: Vec<i64> = Vec::new();
        data.push(t as i64);
        assert(shape@ =~= seq![1usize]);
        assert(data@ =~= seq![seq_sum(self.data@) as i64]);
        assert(num_elements(shape@) == 1) by {
            assert(shape@.drop_last() =~= Seq::<usize>::empty());
            assert(num_elements(shape@.drop_last()) == 1);
            assert(shape@.last() == 1);
        }
        Tensor { shape, data }
    }

    /// The mean of all elements, rounded toward zero, as a tensor of one
    /// element.
    pub fn mean(self) -> (r: Tensor<i64>)
        requires
            self.data@.len() > 0,
            i64::MIN <= seq_sum(self.data@) <= i64::MAX,
        ensures
            r.wf(),
            r.shape@ == seq![1usize],
            r.data@ == seq![trunc_div(seq_sum(self.data@), self.data@.len() as int) as i64],
    {
        let n = self.data.len();
        let t = self.total();
        let q = t / (n as i128);
        let mut shape: Vec<usize> = Vec::new();
        shape.push(1);
        let mut data: Vec<i64> = Vec::new();
        assert(i64::MIN <= q <= i64::MAX) by {
            let a = t as int;
            let b = n as int;
            if a >= 0 {
                assert(0 <= a / b <= a) by (nonlinear_arith)
                    requires
                        a >= 0,
                        b >= 1,
                ;
            } else {
                assert(0 <= (-a) / b <= -a) by (nonlinear_arith)
                    requires
                        a < 0,
                        b >= 1,
                ;
            }
        }
        data.push(q as i64);
        assert(shape@ =~= seq![1usize]);
        assert(data@ =~= seq![trunc_div(seq_sum(self.data@), self.data@.len() as int) as i64]);
        assert(num_elements(shape@) == 1) by {
            assert(shape@.drop_last() =~= Seq::<usize>::empty());
            assert(num_elements(shape@.drop_last()) == 1);
            assert(shape@.last() == 1);
        }
        Tensor { shape, data }
    }

    fn compare_elem(&self, op: CmpOp, other: i64) -> (r: Tensor<bool>)
        ensures
            r.shape@ == self.shape@,
            r.data@.len() == self.data@.len(),
            forall|i: int| 0 <= i < r.data@.len() ==> #[trigger] r.data@[i] == apply_cmp(op, self.data@[i], other),
    {
        let mut data: Vec<bool> = Vec::new();
        let mut i: usize = 0;
        while i < self.data.len()
            invariant
                i <= self.data@.len(),
                data@.len() == i,
                forall|j: int| 0 <= j < i ==> #[trigger] data@[j] == apply_cmp(op, self.data@[j], other),
            decreases self.data@.len() - i,
        {
            let a = self.data[i];
            let v = match op {
                CmpOp::Equal => a == other,
                CmpOp::Greater => a > other,
                CmpOp::GreaterEqual => a >= other,
                CmpOp::Lower => a < other,
                CmpOp::LowerEqual => a <= other,
            };
            data.push(v);
            i = i + 1;
        }
        Tensor { shape: copy_shape(&self.shape), data }
    }

    /// Whether each element equals `other`.
    pub fn equal_elem(self, other: i64) -> (r: Tensor<bool>)
        ensures
            r.shape@ == self.shape@,
            r.data@.len() == self.data@.len(),
            forall|i: int| 0 <= i < r.data@.len() ==> #[trigger] r.data@[i] == (self.data@[i] == other),
    {
        self.compare_elem(CmpOp::Equal, other)
    }

    /// Whether each element is greater than `other`.
    pub fn greater_elem(self, other: i64) -> (r: Tensor<bool>)
        ensures
            r.shape@ == self.shape@,
            r.data@.len() == self.data@.len(),
            forall|i: int| 0 <= i < r.data@.len() ==> #[trigger] r.data@[i] == (self.data@[i] > other),
    {
        self.compare_elem(CmpOp::Greater, other)
    }

    /// Whether each element is greater than or equal to `other`.
    pub fn greater_equal_elem(self, other: i64) -> (r: Tensor<bool>)
        ensures
            r.shape@ == self.shape@,
            r.data@.len() == self.data@.len(),
            forall|i: int| 0 <= i < r.data@.len() ==> #[trigger] r.data@[i] == (self.data@[i] >= other),
    {
        self.compare_elem(CmpOp::GreaterEqual, other)
    }

    /// Whether each element is lower than `other`.
    pub fn lower_elem(self, other: i64) -> (r: Tensor<bool>)
        ensures
            r.shape@ == self.shape@,
            r.data@.len() == self.data@.len(),
            forall|i: int| 0 <= i < r.data@.len() ==> #[trigger] r.data@[i] == (self.data@[i] < other),
    {
        self.compare_elem(CmpOp::Lower, other)
    }

    /// Whether each element is lower than or equal to `other`.
    pub fn lower_equal_elem(self, other: i64) -> (r: Tensor<bool>)
        ensures
            r.shape@ == self.shape@,
            r.data@.len() == self.data@.len(),
            forall|i: int| 0 <= i < r.data@.len() ==> #[trigger] r.data@[i] == (self.data@[i] <= other),
    {
        self.compare_elem(CmpOp::LowerEqual, other)
    }

    /// Takes the element of `value` where the mask is true, and keeps the
    /// element of the tensor elsewhere.
    pub fn mask_where(self, mask: Tensor<bool>, value: Tensor<i64>) -> (r: Tensor<i64>)
        requires
            mask.data@.len() == self.data@.len(),
            value.data@.len() == self.data@.len(),
        ensures
            r.shape@ == self.shape@,
            r.data@.len() == self.data@.len(),
            forall|i: int| 0 <= i < r.data@.len() ==> #[trigger] r.data@[i] == if mask.data@[i] {
                value.data@[i]
            } else {
                self.data@[i]
            },
    {
        let mut data: Vec<i64> = Vec::new();
        let mut i: usize = 0;
        while i < self.data.len()
            invariant
                i <= self.data@.len(),
                mask.data@.len() == self.data@.len(),
                value.data@.len() == self.data@.len(),
                data@.len() == i,
                forall|j: int| 0 <= j < i ==> #[trigger] data@[j] == if mask.data@[j] {
                    value.data@[j]
                } else {
                    self.data@[j]
                },
            decreases self.data@.len() - i,
        {
            let v = if mask.data[i] {
                value.data[i]
            } else {
                self.data[i]
            };
            data.push(v);
            i = i + 1;
        }
        Tensor { shape: self.shape, data }
    }

    /// Sets the element to `value` where the mask is true.
    pub fn mask_fill(self, mask: Tensor<bool>, value: i64) -> (r: Tensor<i64>)
        requires
            mask.data@.len() == self.data@.len(),
        ensures
            r.shape@ == self.shape@,
            r.data@.len() == self.data@.len(),
            forall|i: int| 0 <= i < r.data@.len() ==> #[trigger] r.data@[i] == if mask.data@[i] {
                value
            } else {
                self.data@[i]
            },
    {
        let mut data: Vec<i64> = Vec::new();
        let mut i: usize = 0;
        while i < self.data.len()
            invariant
                i <= self.data@.len(),
                mask.data@.len() == self.data@.len(),
                data@.len() == i,
                forall|j: int| 0 <= j < i ==> #[trigger] data@[j] == if mask.data@[j] {
                    value
                } else {
                    self.data@[j]
                },
            decreases self.data@.len() - i,
        {
            let v = if mask.data[i] {
                value
            } else {
                self.data[i]
            };
            data.push(v);
            i = i + 1;
        }
        Tensor { shape: self.shape, data }
    }

    /// The largest element, as a tensor of one element.
    pub fn max(self) -> (r: Tensor<i64>)
        requires
            self.data@.len() > 0,
        ensures
            r.wf(),
            r.shape@ == seq![1usize],
            r.data@ == seq![seq_max(self.data@)],
    {
        let mut m = self.data[0];
        let mut i: usize = 1;
        while i < self.data.len()
            invariant
                1 <= i <= self.data@.len(),
                m == seq_max(self.data@.subrange(0, i as int)),
            decreases self.data@.len() - i,
        {
            assert(self.data@.subrange(0, i + 1).drop_last() =~= self.data@.subrange(0, i as int));
            if self.data[i] > m {
                m = self.data[i];
            }
            i = i + 1;
        }
        assert(self.data@.subrange(0, self.data@.len() as int) =~= self.data@);
        Self::single(m)
    }

    /// The smallest element, as a tensor of one element.
    pub fn min(self) -> (r: Tensor<i64>)
        requires
            self.data@.len() > 0,
        ensures
            r.wf(),
            r.shape@ == seq![1usize],
            r.data@ == seq![seq_min(self.data@)],
    {
        let mut m = self.data[0];
        let mut i: usize = 1;
        while i < self.data.len()
            invariant
                1 <= i <= self.data@.len(),
                m == seq_min(self.data@.subrange(0, i as int)),
            decreases self.data@.len() - i,
        {
            assert(self.data@.subrange(0, i + 1).drop_last() =~= self.data@.subrange(0, i as int));
            if self.data[i] < m {
                m = self.data[i];
            }
            i = i + 1;
        }
        assert(self.data@.subrange(0, self.data@.len() as int) =~= self.data@);
        Self::single(m)
    }

    fn single(v: i64) -> (r: Tensor<i64>)
        ensures
            r.wf(),
            r.shape@ == seq![1usize],
            r.data@ == seq![v],
    {
        let mut shape: Vec<usize> = Vec::new();
        shape.push(1);
        let mut data: Vec<i64> = Vec::new();
        data.push(v);
        assert(shape@ =~= seq![1usize]);
        assert(data@ =~= seq![v]);
        assert(num_elements(shape@) == 1) by {
            assert(shape@.drop_last() =~= Seq::<usize>::empty());
            assert(num_elements(shape@.drop_last()) == 1);
            assert(shape@.last() == 1);
        }
        Tensor { shape, data }
    }
}


/// Whether two shapes of one rank broadcast together: in each dimension
/// they agree or one of them is one.
pub open spec fn broadcastable(a: Seq<usize>, b: Seq<usize>) -> bool {
    a.len() == b.len() && forall|i: int| 0 <= i < a.len() ==> (#[trigger] a[i] == b[i] || a[i] == 1 || b[i] == 1)
}

/// The shape of the result of a broadcast operation: in each dimension,
/// the size of the operand whose size is not one.
pub open spec fn broadcast_shape(a: Seq<usize>, b: Seq<usize>) -> Seq<usize> {
    Seq::new(a.len(), |i: int| if a[i] == 1 { b[i] } else { a[i] })
}

/// Whether `src` broadcasts to `out`: each of its dimensions equals the
/// result's or is one.
pub open spec fn broadcasts_to(src: Seq<usize>, out: Seq<usize>) -> bool {
    src.len() == out.len() && forall|i: int| 0 <= i < src.len() ==> (#[trigger] src[i] == out[i] || src[i] == 1)
}

/// The position in a tensor of shape `src` that element `k` of a result of
/// shape `out` reads: dimensions of size one always read index zero.
pub open spec fn broadcast_index(out: Seq<usize>, src: Seq<usize>, k: int) -> int
    decreases out.len(),
{
    if out.len() == 0 || src.len() == 0 {
        0
    } else {
        let d = out.last() as int;
        let s = src.last() as int;
        broadcast_index(out.drop_last(), src.drop_last(), k / d) * s + if s == 1 {
            0
        } else {
            k % d
        }
    }
}

/// Element `k` of a result reads a position inside the source.
proof fn lemma_broadcast_index_bound(out: Seq<usize>, src: Seq<usize>, k: int)
    requires
        broadcasts_to(src, out),
        0 <= k < num_elements(out),
    ensures
        0 <= broadcast_index(out, src, k) < num_elements(src),
    decreases out.len(),
{
    if out.len() > 0 {
        let d = out.last() as int;
        let s = src.last() as int;
        let od = out.drop_last();
        let sd = src.drop_last();
        let n = num_elements(od) as int;
        assert(num_elements(out) == n * d);
        assert(d > 0) by (nonlinear_arith)
            requires
                0 <= k < n * d,
                n >= 0,
                d >= 0,
        ;
        assert(0 <= k / d < n) by (nonlinear_arith)
            requires
                0 <= k < n * d,
                d > 0,
        ;
        assert(broadcasts_to(sd, od)) by {
            assert forall|i: int| 0 <= i < sd.len() implies (#[trigger] sd[i] == od[i] || sd[i] == 1) by {
                assert(sd[i] == src[i] && od[i] == out[i]);
            }
        }
        lemma_broadcast_index_bound(od, sd, k / d);
        let b = broadcast_index(od, sd, k / d);
        let m = num_elements(sd) as int;
        assert(src[src.len() - 1] == out[out.len() - 1] || src[src.len() - 1] == 1);
        let digit = if s == 1 { 0 } else { k % d };
        assert(0 <= digit < s) by (nonlinear_arith)
            requires
                d > 0,
                s == d || s == 1,
                digit == if s == 1 { 0 } else { k % d },
        ;
        assert(0 <= b * s + digit < m * s) by (nonlinear_arith)
            requires
                0 <= b < m,
                0 <= digit < s,
        ;
        assert(num_elements(src) == m * s);
    }
}

/// The result of a broadcast operation.
fn broadcast_dims(a: &Vec<usize>, b: &Vec<usize>) -> (r: Vec<usize>)
    requires
        a@.len() == b@.len(),
    ensures
        r@ == broadcast_shape(a@, b@),
{
    let mut r: Vec<usize> = Vec::new();
    let mut i: usize = 0;
    while i < a.len()
        invariant
            i <= a@.len(),
            a@.len() == b@.len(),
            r@ =~= broadcast_shape(a@, b@).subrange(0, i as int),
        decreases a@.len() - i,
    {
        r.push(if a[i] == 1 { b[i] } else { a[i] });
        i = i + 1;
    }
    assert(r@ =~= broadcast_shape(a@, b@));
    r
}

/// Computes the position of the source element that element `k` reads, over
/// the first `n` dimensions.
fn broadcast_index_of(out: &Vec<usize>, src: &Vec<usize>, n: usize, k: usize) -> (r: usize)
    requires
        n <= out@.len(),
        broadcasts_to(src@, out@),
        0 <= k < num_elements(out@.subrange(0, n as int)),
        num_elements(src@.subrange(0, n as int)) <= usize::MAX,
    ensures
        r == broadcast_index(out@.subrange(0, n as int), src@.subrange(0, n as int), k as int),
    decreases n,
{
    let ghost o = out@.subrange(0, n as int);
    let ghost sr = src@.subrange(0, n as int);
    proof {
        assert(broadcasts_to(sr, o)) by {
            assert forall|i: int| 0 <= i < sr.len() implies (#[trigger] sr[i] == o[i] || sr[i] == 1) by {
                assert(sr[i] == src@[i] && o[i] == out@[i]);
            }
        }
        lemma_broadcast_index_bound(o, sr, k as int);
    }
    if n == 0 {
        return 0;
    }
    let d = out[n - 1];
    let s = src[n - 1];
    proof {
        assert(o.drop_last() =~= out@.subrange(0, n - 1));
        assert(sr.drop_last() =~= src@.subrange(0, n - 1));
        let nn = num_elements(o.drop_last()) as int;
        assert(num_elements(o) == nn * d);
        assert(d > 0 && 0 <= k / d < nn) by (nonlinear_arith)
            requires
                0 <= k < nn * d,
                nn >= 0,
                d >= 0,
        ;
        assert(src@[n - 1] == out@[n - 1] || src@[n - 1] == 1);
        let m = num_elements(sr.drop_last()) as int;
        assert(num_elements(sr) == m * s);
        assert(m <= m * s) by (nonlinear_arith)
            requires
                s >= 1,
                m >= 0,
        ;
    }
    let rest = broadcast_index_of(out, src, n - 1, k / d);
    let digit = if s == 1 { 0 } else { k % d };
    proof {
        assert(rest * s + digit == broadcast_index(o, sr, k as int));
    }
    rest * s + digit
}

impl Tensor<i64> {
    fn zip_broadcast(&self, other: &Tensor<i64>, op: ScalarOp) -> (r: Tensor<i64>)
        requires
            self.wf(),
            other.wf(),
            broadcastable(self.shape@, other.shape@),
            num_elements(broadcast_shape(self.shape@, other.shape@)) <= usize::MAX,
            forall|k: int| 0 <= k < num_elements(broadcast_shape(self.shape@, other.shape@)) ==> scalar_op_defined(
                op,
                self.data@[broadcast_index(broadcast_shape(self.shape@, other.shape@), self.shape@, k)],
                other.data@[#[trigger] broadcast_index(broadcast_shape(self.shape@, other.shape@), other.shape@, k)],
            ),
        ensures
            r.wf(),
            r.shape@ == broadcast_shape(self.shape@, other.shape@),
            forall|k: int| 0 <= k < r.data@.len() ==> #[trigger] r.data@[k] == apply_scalar(
                op,
                self.data@[broadcast_index(r.shape@, self.shape@, k)] as int,
                other.data@[broadcast_index(r.shape@, other.shape@, k)] as int,
            ),
    {
        let shape = broadcast_dims(&self.shape, &other.shape);
        let ghost out = shape@;
        let n = match shape_num_elements(&shape) {
            Some(n) => n,
            None => 0,
        };
        let rank = shape.len();
        let _la = self.data.len();
        let _lb = other.data.len();
        proof {
            assert(broadcasts_to(self.shape@, out));
            assert(broadcasts_to(other.shape@, out));
            assert(out.subrange(0, rank as int) =~= out);
            assert(self.shape@.subrange(0, rank as int) =~= self.shape@);
            assert(other.shape@.subrange(0, rank as int) =~= other.shape@);
        }
        let mut data: Vec<i64> = Vec::new();
        let mut k: usize = 0;
        while k < n
            invariant
                k <= n,
                n == num_elements(out),
                shape@ == out,
                rank == out.len(),
                out == broadcast_shape(self.shape@, other.shape@),
                self.wf(),
                other.wf(),
                broadcasts_to(self.shape@, out),
                broadcasts_to(other.shape@, out),
                out.subrange(0, rank as int) == out,
                self.shape@.subrange(0, rank as int) == self.shape@,
                other.shape@.subrange(0, rank as int) == other.shape@,
                self.data@.len() <= usize::MAX,
                other.data@.len() <= usize::MAX,
                data@.len() == k,
                forall|j: int| 0 <= j < n ==> scalar_op_defined(
                    op,
                    self.data@[broadcast_index(out, self.shape@, j)],
                    other.data@[#[trigger] broadcast_index(out, other.shape@, j)],
                ),
                forall|j: int| 0 <= j < k ==> #[trigger] data@[j] == apply_scalar(
                    op,
                    self.data@[broadcast_index(out, self.shape@, j)] as int,
                    other.data@[broadcast_index(out, other.shape@, j)] as int,
                ),
            decreases n - k,
        {
            let ia = broadcast_index_of(&shape, &self.shape, rank, k);
            let ib = broadcast_index_of(&shape, &other.shape, rank, k);
            proof {
                lemma_broadcast_index_bound(out, self.shape@, k as int);
                lemma_broadcast_index_bound(out, other.shape@, k as int);
            }
            let a = self.data[ia];
            let b = other.data[ib];
            assert(scalar_op_defined(op, a, b));
            let v = match op {
                ScalarOp::Add => a + b,
                ScalarOp::Sub => a - b,
                ScalarOp::Mul => a * b,
                ScalarOp::Div => a / b,
            };
            data.push(v);
            k = k + 1;
        }
        Tensor { shape, data }
    }
}

/// The element of `t` that element `k` of a broadcast result of shape
/// `out` reads.
pub open spec fn operand(t: Tensor<i64>, out: Seq<usize>, k: int) -> i64 {
    t.data@[broadcast_index(out, t.shape@, k)]
}

impl Tensor<i64> {
    /// Adds two tensors element-wise, broadcasting dimensions of size one.
    pub fn add(self, other: Tensor<i64>) -> (r: Tensor<i64>)
        requires
            self.wf(),
            other.wf(),
            broadcastable(self.shape@, other.shape@),
            num_elements(broadcast_shape(self.shape@, other.shape@)) <= usize::MAX,
            forall|k: int| 0 <= k < num_elements(broadcast_shape(self.shape@, other.shape@)) ==> i64::MIN <= #[trigger] operand(self, broadcast_shape(self.shape@, other.shape@), k) + operand(other, broadcast_shape(self.shape@, other.shape@), k) <= i64::MAX,
        ensures
            r.wf(),
            r.shape@ == broadcast_shape(self.shape@, other.shape@),
            forall|k: int| 0 <= k < r.data@.len() ==> #[trigger] r.data@[k] == operand(self, r.shape@, k) + operand(other, r.shape@, k),
    {
        let ghost out = broadcast_shape(self.shape@, other.shape@);
        assert forall|k: int| 0 <= k < num_elements(out) implies scalar_op_defined(ScalarOp::Add, self.data@[broadcast_index(out, self.shape@, k)], other.data@[#[trigger] broadcast_index(out, other.shape@, k)]) by {
            assert(i64::MIN <= operand(self, out, k) + operand(other, out, k) <= i64::MAX);
        }
        self.zip_broadcast(&other, ScalarOp::Add)
    }

    /// Subtracts `other` element-wise, broadcasting dimensions of size one.
    pub fn sub(self, other: Tensor<i64>) -> (r: Tensor<i64>)
        requires
            self.wf(),
            other.wf(),
            broadcastable(self.shape@, other.shape@),
            num_elements(broadcast_shape(self.shape@, other.shape@)) <= usize::MAX,
            forall|k: int| 0 <= k < num_elements(broadcast_shape(self.shape@, other.shape@)) ==> i64::MIN <= #[trigger] operand(self, broadcast_shape(self.shape@, other.shape@), k) - operand(other, broadcast_shape(self.shape@, other.shape@), k) <= i64::MAX,
        ensures
            r.wf(),
            r.shape@ == broadcast_shape(self.shape@, other.shape@),
            forall|k: int| 0 <= k < r.data@.len() ==> #[trigger] r.data@[k] == operand(self, r.shape@, k) - operand(other, r.shape@, k),
    {
        let ghost out = broadcast_shape(self.shape@, other.shape@);
        assert forall|k: int| 0 <= k < num_elements(out) implies scalar_op_defined(ScalarOp::Sub, self.data@[broadcast_index(out, self.shape@, k)], other.data@[#[trigger] broadcast_index(out, other.shape@, k)]) by {
            assert(i64::MIN <= operand(self, out, k) - operand(other, out, k) <= i64::MAX);
        }
        self.zip_broadcast(&other, ScalarOp::Sub)
    }

    /// Multiplies two tensors element-wise, broadcasting dimensions of size one.
    pub fn mul(self, other: Tensor<i64>) -> (r: Tensor<i64>)
        requires
            self.wf(),
            other.wf(),
            broadcastable(self.shape@, other.shape@),
            num_elements(broadcast_shape(self.shape@, other.shape@)) <= usize::MAX,
            forall|k: int| 0 <= k < num_elements(broadcast_shape(self.shape@, other.shape@)) ==> i64::MIN <= #[trigger] operand(self, broadcast_shape(self.shape@, other.shape@), k) * operand(other, broadcast_shape(self.shape@, other.shape@), k) <= i64::MAX,
        ensures
            r.wf(),
            r.shape@ == broadcast_shape(self.shape@, other.shape@),
            forall|k: int| 0 <= k < r.data@.len() ==> #[trigger] r.data@[k] == operand(self, r.shape@, k) * operand(other, r.shape@, k),
    {
        let ghost out = broadcast_shape(self.shape@, other.shape@);
        assert forall|k: int| 0 <= k < num_elements(out) implies scalar_op_defined(ScalarOp::Mul, self.data@[broadcast_index(out, self.shape@, k)], other.data@[#[trigger] broadcast_index(out, other.shape@, k)]) by {
            assert(i64::MIN <= operand(self, out, k) * operand(other, out, k) <= i64::MAX);
        }
        self.zip_broadcast(&other, ScalarOp::Mul)
    }

    /// Divides by `other` element-wise, rounding toward zero, broadcasting
    /// dimensions of size one.
    pub fn div(self, other: Tensor<i64>) -> (r: Tensor<i64>)
        requires
            self.wf(),
            other.wf(),
            broadcastable(self.shape@, other.shape@),
            num_elements(broadcast_shape(self.shape@, other.shape@)) <= usize::MAX,
            forall|k: int| 0 <= k < num_elements(broadcast_shape(self.shape@, other.shape@)) ==> #[trigger] operand(other, broadcast_shape(self.shape@, other.shape@), k) != 0 && i64::MIN <= trunc_div(operand(self, broadcast_shape(self.shape@, other.shape@), k) as int, operand(other, broadcast_shape(self.shape@, other.shape@), k) as int) <= i64::MAX,
        ensures
            r.wf(),
            r.shape@ == broadcast_shape(self.shape@, other.shape@),
            forall|k: int| 0 <= k < r.data@.len() ==> #[trigger] r.data@[k] == trunc_div(operand(self, r.shape@, k) as int, operand(other, r.shape@, k) as int),
    {
        let ghost out = broadcast_shape(self.shape@, other.shape@);
        assert forall|k: int| 0 <= k < num_elements(out) implies scalar_op_defined(ScalarOp::Div, self.data@[broadcast_index(out, self.shape@, k)], other.data@[#[trigger] broadcast_index(out, other.shape@, k)]) by {
            assert(operand(other, out, k) != 0);
        }
        self.zip_broadcast(&other, ScalarOp::Div)
    }

    fn zip_compare(&self, other: &Tensor<i64>, op: CmpOp) -> (r: Tensor<bool>)
        requires
            self.wf(),
            other.wf(),
            broadcastable(self.shape@, other.shape@),
            num_elements(broadcast_shape(self.shape@, other.shape@)) <= usize::MAX,
        ensures
            r.wf(),
            r.shape@ == broadcast_shape(self.shape@, other.shape@),
            forall|k: int| 0 <= k < r.data@.len() ==> #[trigger] r.data@[k] == apply_cmp(op, operand(*self, r.shape@, k), operand(*other, r.shape@, k)),
    {
        let shape = broadcast_dims(&self.shape, &other.shape);
        let ghost out = shape@;
        let n = match shape_num_elements(&shape) {
            Some(n) => n,
            None => 0,
        };
        let rank = shape.len();
        let _la = self.data.len();
        let _lb = other.data.len();
        proof {
            assert(broadcasts_to(self.shape@, out));
            assert(broadcasts_to(other.shape@, out));
            assert(out.subrange(0, rank as int) =~= out);
            assert(self.shape@.subrange(0, rank as int) =~= self.shape@);
            assert(other.shape@.subrange(0, rank as int) =~= other.shape@);
        }
        let mut data: Vec<bool> = Vec::new();
        let mut k: usize = 0;
        while k < n
            invariant
                k <= n,
                n == num_elements(out),
                shape@ == out,
                rank == out.len(),
                self.wf(),
                other.wf(),
                broadcasts_to(self.shape@, out),
                broadcasts_to(other.shape@, out),
                out.subrange(0, rank as int) == out,
                self.shape@.subrange(0, rank as int) == self.shape@,
                other.shape@.subrange(0, rank as int) == other.shape@,
                self.data@.len() <= usize::MAX,
                other.data@.len() <= usize::MAX,
                data@.len() == k,
                forall|j: int| 0 <= j < k ==> #[trigger] data@[j] == apply_cmp(op, operand(*self, out, j), operand(*other, out, j)),
            decreases n - k,
        {
            let ia = broadcast_index_of(&shape, &self.shape, rank, k);
            let ib = broadcast_index_of(&shape, &other.shape, rank, k);
            proof {
                lemma_broadcast_index_bound(out, self.shape@, k as int);
                lemma_broadcast_index_bound(out, other.shape@, k as int);
            }
            let a = self.data[ia];
            let b = other.data[ib];
            let v = match op {
                CmpOp::Equal => a == b,
                CmpOp::Greater => a > b,
                CmpOp::GreaterEqual => a >= b,
                CmpOp::Lower => a < b,
                CmpOp::LowerEqual => a <= b,
            };
            data.push(v);
            k = k + 1;
        }
        Tensor { shape, data }
    }

    /// Whether each element is greater than the matching element of `other`,
    /// broadcasting dimensions of size one.
    pub fn greater(self, other: Tensor<i64>) -> (r: Tensor<bool>)
        requires
            self.wf(),
            other.wf(),
            broadcastable(self.shape@, other.shape@),
            num_elements(broadcast_shape(self.shape@, other.shape@)) <= usize::MAX,
        ensures
            r.wf(),
            r.shape@ == broadcast_shape(self.shape@, other.shape@),
            forall|k: int| 0 <= k < r.data@.len() ==> #[trigger] r.data@[k] == (operand(self, r.shape@, k) > operand(other, r.shape@, k)),
    {
        self.zip_compare(&other, CmpOp::Greater)
    }

    /// Whether each element is greater than or equal to the matching element of `other`,
    /// broadcasting dimensions of size one.
    pub fn greater_equal(self, other: Tensor<i64>) -> (r: Tensor<bool>)
        requires
            self.wf(),
            other.wf(),
            broadcastable(self.shape@, other.shape@),
            num_elements(broadcast_shape(self.shape@, other.shape@)) <= usize::MAX,
        ensures
            r.wf(),
            r.shape@ == broadcast_shape(self.shape@, other.shape@),
            forall|k: int| 0 <= k < r.data@.len() ==> #[trigger] r.data@[k] == (operand(self, r.shape@, k) >= operand(other, r.shape@, k)),
    {
        self.zip_compare(&other, CmpOp::GreaterEqual)
    }

    /// Whether each element is lower than the matching element of `other`,
    /// broadcasting dimensions of size one.
    pub fn lower(self, other: Tensor<i64>) -> (r: Tensor<bool>)
        requires
            self.wf(),
            other.wf(),
            broadcastable(self.shape@, other.shape@),
            num_elements(broadcast_shape(self.shape@, other.shape@)) <= usize::MAX,
        ensures
            r.wf(),
            r.shape@ == broadcast_shape(self.shape@, other.shape@),
            forall|k: int| 0 <= k < r.data@.len() ==> #[trigger] r.data@[k] == (operand(self, r.shape@, k) < operand(other, r.shape@, k)),
    {
        self.zip_compare(&other, CmpOp::Lower)
    }

    /// Whether each element is lower than or equal to the matching element of `other`,
    /// broadcasting dimensions of size one.
    pub fn lower_equal(self, other: Tensor<i64>) -> (r: Tensor<bool>)
        requires
            self.wf(),
            other.wf(),
            broadcastable(self.shape@, other.shape@),
            num_elements(broadcast_shape(self.shape@, other.shape@)) <= usize::MAX,
        ensures
            r.wf(),
            r.shape@ == broadcast_shape(self.shape@, other.shape@),
            forall|k: int| 0 <= k < r.data@.len() ==> #[trigger] r.data@[k] == (operand(self, r.shape@, k) <= operand(other, r.shape@, k)),
    {
        self.zip_compare(&other, CmpOp::LowerEqual)
    }
}


/// The elements along dimension `dim` that meet at result position
/// `o * inner + i`, for a dimension of size `d` with `inner` elements after it.
pub open spec fn fiber(data: Seq<i64>, d: int, inner: int, o: int, i: int) -> Seq<i64> {
    Seq::new(d as nat, |j: int| data[(o * d + j) * inner + i])
}

/// The number of elements before dimension `dim`.
pub open spec fn outer_size(shape: Seq<usize>, dim: int) -> nat {
    num_elements(shape.subrange(0, dim))
}

/// The number of elements after dimension `dim`.
pub open spec fn inner_size(shape: Seq<usize>, dim: int) -> nat {
    num_elements(shape.subrange(dim + 1, shape.len() as int))
}

/// The position of the first largest element.
pub open spec fn seq_argmax(s: Seq<i64>) -> int
    decreases s.len(),
{
    if s.len() <= 1 {
        0
    } else if s.last() > s[seq_argmax(s.drop_last())] {
        s.len() - 1
    } else {
        seq_argmax(s.drop_last())
    }
}

/// The position of the first smallest element.
pub open spec fn seq_argmin(s: Seq<i64>) -> int
    decreases s.len(),
{
    if s.len() <= 1 {
        0
    } else if s.last() < s[seq_argmin(s.drop_last())] {
        s.len() - 1
    } else {
        seq_argmin(s.drop_last())
    }
}

/// A concatenation holds the product of the elements of its parts.
proof fn lemma_num_elements_concat(a: Seq<usize>, b: Seq<usize>)
    ensures
        num_elements(a + b) == num_elements(a) * num_elements(b),
    decreases b.len(),
{
    if b.len() == 0 {
        assert(a + b =~= a);
        assert(num_elements(b) == 1);
        let x = num_elements(a) as int;
        assert(x * 1 == x);
    } else {
        lemma_num_elements_concat(a, b.drop_last());
        assert((a + b).drop_last() =~= a + b.drop_last());
        assert((a + b).last() == b.last());
        let x = num_elements(a) as int;
        let y = num_elements(b.drop_last()) as int;
        let l = b.last() as int;
        assert(x * (y * l) == (x * y) * l) by (nonlinear_arith);
    }
}

/// A shape of one dimension holds that many elements.
proof fn lemma_num_elements_single(x: usize)
    ensures
        num_elements(seq![x]) == x,
{
    let s = seq![x];
    assert(s.drop_last() =~= Seq::<usize>::empty());
    let a = num_elements(s.drop_last()) as int;
    assert(a == 1);
    assert(a * (x as int) == x) by (nonlinear_arith)
        requires
            a == 1,
    ;
}

/// A shape splits around dimension `dim` into outer, `dim` and inner parts.
proof fn lemma_split_shape(shape: Seq<usize>, dim: int)
    requires
        0 <= dim < shape.len(),
    ensures
        num_elements(shape) == outer_size(shape, dim) * shape[dim] * inner_size(shape, dim),
        num_elements(shape.update(dim, 1)) == outer_size(shape, dim) * inner_size(shape, dim),
{
    let a = shape.subrange(0, dim);
    let b = shape.subrange(dim + 1, shape.len() as int);
    assert(shape =~= a + seq![shape[dim]] + b);
    assert(shape.update(dim, 1) =~= a + seq![1usize] + b);
    assert(shape.update(dim, 1).subrange(0, dim) =~= a);
    assert(shape.update(dim, 1).subrange(dim + 1, shape.len() as int) =~= b);
    lemma_num_elements_concat(a + seq![shape[dim]], b);
    lemma_num_elements_concat(a, seq![shape[dim]]);
    lemma_num_elements_concat(a + seq![1usize], b);
    lemma_num_elements_concat(a, seq![1usize]);
    assert(seq![shape[dim]].drop_last() =~= Seq::<usize>::empty());
    assert(seq![1usize].drop_last() =~= Seq::<usize>::empty());
    assert(num_elements(Seq::<usize>::empty()) == 1);
    lemma_num_elements_single(shape[dim]);
    lemma_num_elements_single(1);
    let x = num_elements(a) as int;
    let y = num_elements(b) as int;
    assert(x * 1 * y == x * y) by (nonlinear_arith);
}

/// Position `j` of fiber `(o, i)` lies inside the data.
proof fn lemma_fiber_index(outer: int, d: int, inner: int, o: int, j: int, i: int)
    requires
        0 <= o < outer,
        0 <= j < d,
        0 <= i < inner,
    ensures
        0 <= (o * d + j) * inner + i < outer * d * inner,
{
    assert(0 <= o * d + j < outer * d) by (nonlinear_arith)
        requires
            0 <= o < outer,
            0 <= j < d,
    ;
    assert(0 <= (o * d + j) * inner + i < (outer * d) * inner) by (nonlinear_arith)
        requires
            0 <= o * d + j < outer * d,
            0 <= i < inner,
    ;
}

/// The largest element sits at the position of the first largest element.
proof fn lemma_max_at_argmax(s: Seq<i64>)
    requires
        s.len() > 0,
    ensures
        0 <= seq_argmax(s) < s.len(),
        s[seq_argmax(s)] == seq_max(s),
        0 <= seq_argmin(s) < s.len(),
        s[seq_argmin(s)] == seq_min(s),
    decreases s.len(),
{
    if s.len() > 1 {
        lemma_max_at_argmax(s.drop_last());
    }
}

/// The reductions along one dimension.
#[derive(Clone, Copy, Debug, PartialEq, Eq, Structural)]
pub enum Reduction {
    Sum,
    Max,
    Min,
    ArgMax,
    ArgMin,
}

/// The result of a reduction of a fiber.
pub open spec fn reduce_spec(kind: Reduction, s: Seq<i64>) -> int {
    match kind {
        Reduction::Sum => seq_sum(s),
        Reduction::Max => seq_max(s) as int,
        Reduction::Min => seq_min(s) as int,
        Reduction::ArgMax => seq_argmax(s),
        Reduction::ArgMin => seq_argmin(s),
    }
}

fn fiber_pos(o: usize, d: usize, j: usize, inner: usize, i: usize, bound: usize) -> (r: usize)
    requires
        0 <= (o * d + j) * inner + i < bound,
        i < inner,
    ensures
        r == (o * d + j) * inner + i,
{
    proof {
        assert(o * d + j <= (o * d + j) * inner) by (nonlinear_arith)
            requires
                inner >= 1,
                o * d + j >= 0,
        ;
        assert(o * d >= 0) by (nonlinear_arith);
    }
    (o * d + j) * inner + i
}

fn reduce_fiber(data: &Vec<i64>, d: usize, inner: usize, o: usize, i: usize, kind: Reduction) -> (r: i128)
    requires
        d > 0 || kind == Reduction::Sum,
        0 <= i < inner,
        forall|j: int| 0 <= j < d ==> 0 <= #[trigger] ((o * d + j) * inner + i) < data@.len(),
    ensures
        r == reduce_spec(kind, fiber(data@, d as int, inner as int, o as int, i as int)),
{
    let ghost f = fiber(data@, d as int, inner as int, o as int, i as int);
    let _len = data.len();
    let mut acc: i128 = 0;
    let mut best: usize = 0;
    let mut j: usize = 0;
    while j < d
        invariant
            j <= d,
            d > 0 || kind == Reduction::Sum,
            0 <= i < inner,
            f == fiber(data@, d as int, inner as int, o as int, i as int),
            forall|j2: int| 0 <= j2 < d ==> 0 <= #[trigger] ((o * d + j2) * inner + i) < data@.len(),
            kind == Reduction::Sum ==> acc == seq_sum(f.subrange(0, j as int)),
            kind == Reduction::Sum ==> (i64::MIN as int) * (j as int) <= acc <= (i64::MAX as int) * (j as int),
            (kind == Reduction::ArgMax || kind == Reduction::Max) && j > 0 ==> best == seq_argmax(f.subrange(0, j as int)),
            (kind == Reduction::ArgMin || kind == Reduction::Min) && j > 0 ==> best == seq_argmin(f.subrange(0, j as int)),
            j > 0 ==> best < j,
            j == 0 ==> best == 0,
            data@.len() <= usize::MAX,
        decreases d - j,
    {
        assert((o * d + j) * inner + i < data@.len());
        proof {
            assert(f.subrange(0, j + 1).drop_last() =~= f.subrange(0, j as int));
            if j > 0 {
                assert(f.subrange(0, j as int)[best as int] == f[best as int]);
            }
            assert(f[j as int] == data@[(o * d + j) * inner + i]);
        }
        let v = data[fiber_pos(o, d, j, inner, i, data.len())];
        match kind {
            Reduction::Sum => {
                acc = acc + v as i128;
            },
            Reduction::ArgMax | Reduction::Max => {
                assert(j > 0 ==> (o * d + best) * inner + i < data@.len());
                if j == 0 || v > data[fiber_pos(o, d, best, inner, i, data.len())] {
                    best = j;
                }
            },
            Reduction::ArgMin | Reduction::Min => {
                assert(j > 0 ==> (o * d + best) * inner + i < data@.len());
                if j == 0 || v < data[fiber_pos(o, d, best, inner, i, data.len())] {
                    best = j;
                }
            },
        }
        j = j + 1;
    }
    assert(f.subrange(0, d as int) =~= f);
    match kind {
        Reduction::Sum => acc,
        Reduction::Max | Reduction::Min => {
            proof {
                lemma_max_at_argmax(f);
                assert(f[best as int] == data@[(o * d + best) * inner + i]);
            }
            data[fiber_pos(o, d, best, inner, i, data.len())] as i128
        },
        _ => best as i128,
    }
}

/// Whether every reduction of a fiber along `dim` fits in `i64`.
pub open spec fn reductions_fit(t: Tensor<i64>, dim: int, kind: Reduction) -> bool {
    let d = t.shape@[dim] as int;
    let inner = inner_size(t.shape@, dim) as int;
    forall|o: int, i: int|
        0 <= o < outer_size(t.shape@, dim) && 0 <= i < inner ==> i64::MIN <= #[trigger] reduce_spec(
            kind,
            fiber(t.data@, d, inner, o, i),
        ) <= i64::MAX
}

/// Whether a reduction along `dim` is defined on `t`: the dimension exists,
/// is not empty unless summed, the sizes fit in `usize`, and the results fit in
/// `i64`.
pub open spec fn reduction_ok(t: Tensor<i64>, dim: usize, kind: Reduction) -> bool {
    &&& t.wf()
    &&& dim < t.shape@.len()
    &&& (t.shape@[dim as int] > 0 || kind == Reduction::Sum)
    &&& outer_size(t.shape@, dim as int) <= usize::MAX
    &&& inner_size(t.shape@, dim as int) <= usize::MAX
    &&& outer_size(t.shape@, dim as int) * inner_size(t.shape@, dim as int) <= usize::MAX
    &&& reductions_fit(t, dim as int, kind)
}

/// `r` holds, at position `o * inner + i`, the reduction of fiber `(o, i)`
/// of `t` along `dim`.
pub open spec fn reduced(t: Tensor<i64>, dim: usize, kind: Reduction, r: Tensor<i64>) -> bool {
    let d = t.shape@[dim as int] as int;
    let inner = inner_size(t.shape@, dim as int) as int;
    &&& r.wf()
    &&& r.shape@ == t.shape@.update(dim as int, 1)
    &&& forall|o: int, i: int|
        0 <= o < outer_size(t.shape@, dim as int) && 0 <= i < inner ==> r.data@[o * inner + i]
            == #[trigger] reduce_spec(kind, fiber(t.data@, d, inner, o, i))
}

fn sub_dims(v: &Vec<usize>, lo: usize, hi: usize) -> (r: Vec<usize>)
    requires
        lo <= hi <= v@.len(),
    ensures
        r@ == v@.subrange(lo as int, hi as int),
{
    let mut r: Vec<usize> = Vec::new();
    let mut k = lo;
    while k < hi
        invariant
            lo <= k <= hi,
            hi <= v@.len(),
            r@ =~= v@.subrange(lo as int, k as int),
        decreases hi - k,
    {
        r.push(v[k]);
        k = k + 1;
    }
    r
}

impl Tensor<i64> {
    fn reduce_dim(&self, dim: usize, kind: Reduction) -> (r: Tensor<i64>)
        requires
            reduction_ok(*self, dim, kind),
        ensures
            reduced(*self, dim, kind, r),
    {
        let ghost sh = self.shape@;
        let d = self.shape[dim];
        let outer = match shape_num_elements(&sub_dims(&self.shape, 0, dim)) {
            Some(n) => n,
            None => 0,
        };
        let rank = self.shape.len();
        let inner = match shape_num_elements(&sub_dims(&self.shape, dim + 1, rank)) {
            Some(n) => n,
            None => 0,
        };
        let ghost gi = inner as int;
        let ghost gd = d as int;
        proof {
            lemma_split_shape(sh, dim as int);
        }
        let total = self.data.len();
        let mut data: Vec<i64> = Vec::new();
        let mut o: usize = 0;
        while o < outer
            invariant
                o <= outer,
                reduction_ok(*self, dim, kind),
                sh == self.shape@,
                d == sh[dim as int],
                outer == outer_size(sh, dim as int),
                inner == inner_size(sh, dim as int),
                total == self.data@.len(),
                self.data@.len() == outer * d * inner,
                outer * inner <= usize::MAX,
                data@.len() == o * inner,
                forall|o2: int, i2: int|
                    0 <= o2 < o && 0 <= i2 < inner ==> data@[o2 * inner + i2] == #[trigger] reduce_spec(
                        kind,
                        fiber(self.data@, d as int, inner as int, o2, i2),
                    ),
            decreases outer - o,
        {
            let mut i: usize = 0;
            proof {
                assert(o * inner + inner <= outer * inner) by (nonlinear_arith)
                    requires
                        o < outer,
                        inner >= 0,
                ;
            }
            while i < inner
                invariant
                    o < outer,
                    i <= inner,
                    reduction_ok(*self, dim, kind),
                    sh == self.shape@,
                    d == sh[dim as int],
                    outer == outer_size(sh, dim as int),
                    inner == inner_size(sh, dim as int),
                    total == self.data@.len(),
                    self.data@.len() == outer * d * inner,
                    o * inner + inner <= outer * inner,
                    outer * inner <= usize::MAX,
                    data@.len() == o * inner + i,
                    forall|o2: int, i2: int|
                        0 <= o2 < o && 0 <= i2 < inner ==> data@[o2 * inner + i2] == #[trigger] reduce_spec(
                            kind,
                            fiber(self.data@, d as int, inner as int, o2, i2),
                        ),
                    forall|i2: int|
                        0 <= i2 < i ==> data@[o * inner + i2] == #[trigger] reduce_spec(
                            kind,
                            fiber(self.data@, d as int, inner as int, o as int, i2),
                        ),
                decreases inner - i,
            {
                proof {
                    assert forall|j: int| 0 <= j < d implies 0 <= #[trigger] ((o * d + j) * inner + i) < self.data@.len() by {
                        lemma_fiber_index(outer as int, d as int, inner as int, o as int, j, i as int);
                    }
                }
                let v = reduce_fiber(&self.data, d, inner, o, i, kind);
                proof {
                    assert(reductions_fit(*self, dim as int, kind));
                    assert(i64::MIN <= reduce_spec(kind, fiber(self.data@, d as int, inner as int, o as int, i as int)) <= i64::MAX);
                }
                data.push(v as i64);
                proof {
                    assert forall|o2: int, i2: int| 0 <= o2 < o && 0 <= i2 < inner implies data@[o2 * inner + i2] == #[trigger] reduce_spec(
                        kind,
                        fiber(self.data@, d as int, inner as int, o2, i2),
                    ) by {
                        assert(o2 * inner + i2 < o * inner) by (nonlinear_arith)
                            requires
                                0 <= o2 < o,
                                0 <= i2 < inner,
                        ;
                    }
                }
                i = i + 1;
            }
            proof {
                assert((o + 1) * inner == o * inner + inner) by (nonlinear_arith);
            }
            o = o + 1;
        }
        let mut shape = self.shape();
        shape.set(dim, 1);
        proof {
            assert(shape@ == sh.update(dim as int, 1));
            assert(num_elements(shape@) == outer * inner);
        }
        Tensor { shape, data }
    }
}

impl Tensor<i64> {
    /// Sums the elements along dimension `dim`, which keeps size one.
    pub fn sum_dim(self, dim: usize) -> (r: Tensor<i64>)
        requires
            reduction_ok(self, dim, Reduction::Sum),
        ensures
            reduced(self, dim, Reduction::Sum, r),
    {
        self.reduce_dim(dim, Reduction::Sum)
    }

    /// The largest element along dimension `dim`, which keeps size one.
    pub fn max_dim(self, dim: usize) -> (r: Tensor<i64>)
        requires
            reduction_ok(self, dim, Reduction::Max),
        ensures
            reduced(self, dim, Reduction::Max, r),
    {
        self.reduce_dim(dim, Reduction::Max)
    }

    /// The smallest element along dimension `dim`, which keeps size one.
    pub fn min_dim(self, dim: usize) -> (r: Tensor<i64>)
        requires
            reduction_ok(self, dim, Reduction::Min),
        ensures
            reduced(self, dim, Reduction::Min, r),
    {
        self.reduce_dim(dim, Reduction::Min)
    }

    /// The position along dimension `dim` of the first largest element; the
    /// dimension keeps size one.
    pub fn argmax(self, dim: usize) -> (r: Tensor<i64>)
        requires
            reduction_ok(self, dim, Reduction::ArgMax),
        ensures
            reduced(self, dim, Reduction::ArgMax, r),
    {
        self.reduce_dim(dim, Reduction::ArgMax)
    }

    /// The position along dimension `dim` of the first smallest element; the
    /// dimension keeps size one.
    pub fn argmin(self, dim: usize) -> (r: Tensor<i64>)
        requires
            reduction_ok(self, dim, Reduction::ArgMin),
        ensures
            reduced(self, dim, Reduction::ArgMin, r),
    {
        self.reduce_dim(dim, Reduction::ArgMin)
    }

    /// The largest element along dimension `dim`, and its position.
    pub fn max_dim_with_indices(self, dim: usize) -> (r: (Tensor<i64>, Tensor<i64>))
        requires
            reduction_ok(self, dim, Reduction::Max),
            reduction_ok(self, dim, Reduction::ArgMax),
        ensures
            reduced(self, dim, Reduction::Max, r.0),
            reduced(self, dim, Reduction::ArgMax, r.1),
    {
        let values = self.reduce_dim(dim, Reduction::Max);
        let indices = self.reduce_dim(dim, Reduction::ArgMax);
        (values, indices)
    }

    /// The smallest element along dimension `dim`, and its position.
    pub fn min_dim_with_indices(self, dim: usize) -> (r: (Tensor<i64>, Tensor<i64>))
        requires
            reduction_ok(self, dim, Reduction::Min),
            reduction_ok(self, dim, Reduction::ArgMin),
        ensures
            reduced(self, dim, Reduction::Min, r.0),
            reduced(self, dim, Reduction::ArgMin, r.1),
    {
        let values = self.reduce_dim(dim, Reduction::Min);
        let indices = self.reduce_dim(dim, Reduction::ArgMin);
        (values, indices)
    }

    /// The mean of the elements along dimension `dim`, rounded toward zero;
    /// the dimension keeps size one.
    pub fn mean_dim(self, dim: usize) -> (r: Tensor<i64>)
        requires
            reduction_ok(self, dim, Reduction::Sum),
            self.shape@[dim as int] > 0,
            self.shape@[dim as int] <= i64::MAX,
        ensures
            r.wf(),
            r.shape@ == self.shape@.update(dim as int, 1),
            forall|o: int, i: int|
                0 <= o < outer_size(self.shape@, dim as int) && 0 <= i < inner_size(self.shape@, dim as int)
                    ==> r.data@[o * inner_size(self.shape@, dim as int) + i] == trunc_div(
                    #[trigger] seq_sum(fiber(self.data@, self.shape@[dim as int] as int, inner_size(self.shape@, dim as int) as int, o, i)),
                    self.shape@[dim as int] as int,
                ),
    {
        let d = self.shape[dim];
        let sums = self.reduce_dim(dim, Reduction::Sum);
        proof {
            assert forall|k: int| 0 <= k < sums.data@.len() implies i64::MIN <= trunc_div(#[trigger] sums.data@[k] as int, d as int) <= i64::MAX by {
                lemma_trunc_div_bound(sums.data@[k] as int, d as int);
            }
        }
        let ghost inner = inner_size(self.shape@, dim as int) as int;
        let r = sums.div_scalar(d as i64);
        proof {
            assert forall|o: int, i: int|
                0 <= o < outer_size(self.shape@, dim as int) && 0 <= i < inner implies r.data@[o * inner + i] == trunc_div(
                    #[trigger] seq_sum(fiber(self.data@, d as int, inner, o, i)),
                    d as int,
                ) by {
                assert(reduce_spec(Reduction::Sum, fiber(self.data@, d as int, inner, o, i)) == seq_sum(fiber(self.data@, d as int, inner, o, i)));
                lemma_split_shape(self.shape@, dim as int);
                assert(o * inner + i < outer_size(self.shape@, dim as int) * inner) by (nonlinear_arith)
                    requires
                        0 <= o < outer_size(self.shape@, dim as int),
                        0 <= i < inner,
                ;
            }
        }
        r
    }
}

/// Dividing by a positive number never moves away from zero.
proof fn lemma_trunc_div_bound(x: int, d: int)
    requires
        d >= 1,
        i64::MIN <= x <= i64::MAX,
    ensures
        i64::MIN <= trunc_div(x, d) <= i64::MAX,
{
    if x >= 0 {
        assert(0 <= x / d <= x) by (nonlinear_arith)
            requires
                x >= 0,
                d >= 1,
        ;
    } else {
        assert(0 <= (-x) / d <= -x) by (nonlinear_arith)
            requires
                x < 0,
                d >= 1,
        ;
    }
}


/// The position in a tensor split as `outer x d x inner` of the element at
/// `(q / (m * inner), j, q % inner)`, where `q` counts positions of a tensor
/// split as `outer x m x inner`.
pub open spec fn moved_pos(q: int, m: int, inner: int, d: int, j: int) -> int {
    ((q / (m * inner)) * d + j) * inner + q % inner
}

/// The position along the selected axis of element `q` of a tensor split
/// as `outer x m x inner`.
pub open spec fn axis_pos(q: int, m: int, inner: int) -> int {
    (q / inner) % m
}

/// Element `q` of an `outer x m x inner` tensor maps into an
/// `outer x d x inner` one.
proof fn lemma_moved_pos(q: int, outer: int, m: int, inner: int, d: int, j: int)
    requires
        0 <= q < outer * m * inner,
        0 <= j < d,
        m >= 0,
        inner >= 0,
    ensures
        0 <= moved_pos(q, m, inner, d, j) < outer * d * inner,
        0 <= axis_pos(q, m, inner) < m,
        m > 0,
        inner > 0,
        m * inner > 0,
{
    assert(m * inner > 0 && inner > 0 && m > 0) by (nonlinear_arith)
        requires
            0 <= q < outer * m * inner,
            m >= 0,
            inner >= 0,
    ;
    let o = q / (m * inner);
    assert(0 <= o < outer) by (nonlinear_arith)
        requires
            0 <= q < outer * m * inner,
            m * inner > 0,
            o == q / (m * inner),
    ;
    let i = q % inner;
    assert(0 <= i < inner) by (nonlinear_arith)
        requires
            inner > 0,
            i == q % inner,
    ;
    lemma_fiber_index(outer, d, inner, o, j, i);
    assert(0 <= (q / inner) % m < m) by (nonlinear_arith)
        requires
            m > 0,
            inner > 0,
            q >= 0,
    ;
}

/// Whether `a` and `b` have one rank and agree on every dimension but `dim`.
pub open spec fn same_but(a: Seq<usize>, b: Seq<usize>, dim: int) -> bool {
    a.len() == b.len() && forall|k: int| 0 <= k < a.len() && k != dim ==> #[trigger] a[k] == b[k]
}

/// Shapes that agree but along one dimension have the same outer and inner
/// sizes.
proof fn lemma_same_but_sizes(a: Seq<usize>, b: Seq<usize>, dim: int)
    requires
        same_but(a, b, dim),
        0 <= dim < a.len(),
    ensures
        outer_size(a, dim) == outer_size(b, dim),
        inner_size(a, dim) == inner_size(b, dim),
{
    assert(a.subrange(0, dim) =~= b.subrange(0, dim));
    assert(a.subrange(dim + 1, a.len() as int) =~= b.subrange(dim + 1, b.len() as int));
}

fn split_sizes(shape: &Vec<usize>, dim: usize) -> (r: (usize, usize))
    requires
        dim < shape@.len(),
        outer_size(shape@, dim as int) <= usize::MAX,
        inner_size(shape@, dim as int) <= usize::MAX,
    ensures
        r.0 == outer_size(shape@, dim as int),
        r.1 == inner_size(shape@, dim as int),
{
    let rank = shape.len();
    let outer = match shape_num_elements(&sub_dims(shape, 0, dim)) {
        Some(n) => n,
        None => 0,
    };
    let inner = match shape_num_elements(&sub_dims(shape, dim + 1, rank)) {
        Some(n) => n,
        None => 0,
    };
    (outer, inner)
}

impl Tensor<i64> {
    /// Picks, along dimension `dim`, the slices at the given positions, in
    /// their order: `output[.., j, ..] = input[.., indices[j], ..]`.
    pub fn select(self, dim: usize, indices: Tensor<i64>) -> (r: Tensor<i64>)
        requires
            self.wf(),
            dim < self.shape@.len(),
            indices.shape@.len() == 1,
            indices.wf(),
            forall|j: int| 0 <= j < indices.data@.len() ==> 0 <= #[trigger] indices.data@[j] < self.shape@[dim as int],
            num_elements(self.shape@.update(dim as int, indices.data@.len() as usize)) <= usize::MAX,
            outer_size(self.shape@, dim as int) <= usize::MAX,
            inner_size(self.shape@, dim as int) <= usize::MAX,
        ensures
            r.wf(),
            r.shape@ == self.shape@.update(dim as int, indices.data@.len() as usize),
            forall|q: int| 0 <= q < r.data@.len() ==> #[trigger] r.data@[q] == self.data@[moved_pos(
                q,
                indices.data@.len() as int,
                inner_size(self.shape@, dim as int) as int,
                self.shape@[dim as int] as int,
                indices.data@[axis_pos(q, indices.data@.len() as int, inner_size(self.shape@, dim as int) as int)] as int,
            )],
    {
        let (outer, inner) = split_sizes(&self.shape, dim);
        let d = self.shape[dim];
        let m = indices.data.len();
        let mut shape = self.shape();
        shape.set(dim, m);
        let ghost sh = self.shape@;
        proof {
            lemma_split_shape(sh, dim as int);
            lemma_split_shape(shape@, dim as int);
            assert(shape@ == sh.update(dim as int, m));
            lemma_same_but_sizes(sh, shape@, dim as int);
        }
        let n = match shape_num_elements(&shape) {
            Some(n) => n,
            None => 0,
        };
        let total = self.data.len();
        let mut data: Vec<i64> = Vec::new();
        let mut q: usize = 0;
        while q < n
            invariant
                q <= n,
                n == outer * m * inner,
                total == self.data@.len(),
                self.data@.len() == outer * d * inner,
                d == sh[dim as int],
                sh == self.shape@,
                m == indices.data@.len(),
                inner == inner_size(sh, dim as int),
                forall|j: int| 0 <= j < indices.data@.len() ==> 0 <= #[trigger] indices.data@[j] < sh[dim as int],
                data@.len() == q,
                forall|q2: int| 0 <= q2 < q ==> #[trigger] data@[q2] == self.data@[moved_pos(q2, m as int, inner as int, d as int, indices.data@[axis_pos(q2, m as int, inner as int)] as int)],
            decreases n - q,
        {
            proof {
                lemma_moved_pos(q as int, outer as int, m as int, inner as int, d as int, 0);
            }
            let ghost qi = q as int;
            let ghost mi = m as int;
            let ghost ii = inner as int;
            let ghost di = d as int;
            proof {
                assert(mi * ii <= n) by (nonlinear_arith)
                    requires
                        n == outer * mi * ii,
                        0 <= qi < n,
                        mi >= 0,
                        ii >= 0,
                ;
            }
            let mi_ = m * inner;
            let j = (q / inner) % m;
            let t = indices.data[j] as usize;
            let o = q / mi_;
            proof {
                let ti = t as int;
                lemma_moved_pos(qi, outer as int, mi, ii, di, ti);
                let oi = qi / (mi * ii);
                assert(oi * di + ti <= (oi * di + ti) * ii) by (nonlinear_arith)
                    requires
                        ii >= 1,
                        oi * di + ti >= 0,
                ;
                assert(oi * di >= 0) by (nonlinear_arith)
                    requires
                        oi >= 0,
                        di >= 0,
                ;
                assert(oi >= 0) by (nonlinear_arith)
                    requires
                        qi >= 0,
                        mi * ii > 0,
                        oi == qi / (mi * ii),
                ;
            }
            let p = (o * d + t) * inner + q % inner;
            data.push(self.data[p]);
            q = q + 1;
        }
        proof {
            assert(num_elements(shape@) == outer * m * inner);
        }
        Tensor { shape, data }
    }
}

impl Tensor<i64> {
    /// Picks, along dimension `dim`, the element at the position that the
    /// index tensor holds: for `dim = 0`, `output[i, j] = input[indices[i, j], j]`.
    pub fn gather(self, dim: usize, indices: Tensor<i64>) -> (r: Tensor<i64>)
        requires
            self.wf(),
            indices.wf(),
            dim < self.shape@.len(),
            same_but(self.shape@, indices.shape@, dim as int),
            forall|q: int| 0 <= q < indices.data@.len() ==> 0 <= #[trigger] indices.data@[q] < self.shape@[dim as int],
            outer_size(self.shape@, dim as int) <= usize::MAX,
            inner_size(self.shape@, dim as int) <= usize::MAX,
        ensures
            r.wf(),
            r.shape@ == indices.shape@,
            forall|q: int| 0 <= q < r.data@.len() ==> #[trigger] r.data@[q] == self.data@[moved_pos(
                q,
                indices.shape@[dim as int] as int,
                inner_size(self.shape@, dim as int) as int,
                self.shape@[dim as int] as int,
                indices.data@[q] as int,
            )],
    {
        let (outer, inner) = split_sizes(&self.shape, dim);
        let d = self.shape[dim];
        let m = indices.shape[dim];
        let ghost sh = self.shape@;
        proof {
            lemma_split_shape(sh, dim as int);
            lemma_split_shape(indices.shape@, dim as int);
            lemma_same_but_sizes(sh, indices.shape@, dim as int);
        }
        let n = indices.data.len();
        let total = self.data.len();
        let mut data: Vec<i64> = Vec::new();
        let mut q: usize = 0;
        while q < n
            invariant
                q <= n,
                n == indices.data@.len(),
                n == outer * m * inner,
                total == self.data@.len(),
                self.data@.len() == outer * d * inner,
                d == sh[dim as int],
                sh == self.shape@,
                inner == inner_size(sh, dim as int),
                forall|q2: int| 0 <= q2 < indices.data@.len() ==> 0 <= #[trigger] indices.data@[q2] < sh[dim as int],
                data@.len() == q,
                forall|q2: int| 0 <= q2 < q ==> #[trigger] data@[q2] == self.data@[moved_pos(q2, m as int, inner as int, d as int, indices.data@[q2] as int)],
            decreases n - q,
        {
            let ghost qi = q as int;
            let ghost mi = m as int;
            let ghost ii = inner as int;
            let ghost di = d as int;
            let t = indices.data[q] as usize;
            proof {
                let ti = t as int;
                lemma_moved_pos(qi, outer as int, mi, ii, di, ti);
                assert(mi * ii <= n) by (nonlinear_arith)
                    requires
                        n == outer * mi * ii,
                        0 <= qi < n,
                        mi >= 0,
                        ii >= 0,
                ;
                let oi = qi / (mi * ii);
                assert(oi >= 0) by (nonlinear_arith)
                    requires
                        qi >= 0,
                        mi * ii > 0,
                        oi == qi / (mi * ii),
                ;
                assert(oi * di + ti <= (oi * di + ti) * ii) by (nonlinear_arith)
                    requires
                        ii >= 1,
                        oi * di + ti >= 0,
                ;
                assert(oi * di >= 0) by (nonlinear_arith)
                    requires
                        oi >= 0,
                        di >= 0,
                ;
            }
            let mi_ = m * inner;
            let o = q / mi_;
            let p = (o * d + t) * inner + q % inner;
            data.push(self.data[p]);
            q = q + 1;
        }
        Tensor { shape: indices.shape, data }
    }
}


/// The sum of the values, among the first `n` along the assigned axis at
/// `(o, i)`, whose index is `t`. A scatter reads the index of each value
/// from the index tensor at the value's own position; a selective
/// assignment reads it from a list of positions along the axis.
pub open spec fn assigned_sum(
    values: Seq<i64>,
    indices: Seq<i64>,
    m: int,
    inner: int,
    o: int,
    i: int,
    t: int,
    scatter: bool,
    n: int,
) -> int
    decreases n,
{
    if n <= 0 {
        0
    } else {
        let pos = (o * m + (n - 1)) * inner + i;
        let key = if scatter {
            indices[pos]
        } else {
            indices[n - 1]
        };
        assigned_sum(values, indices, m, inner, o, i, t, scatter, n - 1) + if key == t {
            values[pos] as int
        } else {
            0
        }
    }
}

/// What an assignment adds to position `p` of a tensor split as
/// `outer x d x inner`, from values split as `outer x m x inner`.
pub open spec fn assigned_at(values: Seq<i64>, indices: Seq<i64>, m: int, inner: int, d: int, p: int, scatter: bool) -> int {
    assigned_sum(values, indices, m, inner, p / (d * inner), p % inner, (p / inner) % d, scatter, m)
}

fn accumulate(
    values: &Vec<i64>,
    indices: &Vec<i64>,
    m: usize,
    inner: usize,
    o: usize,
    i: usize,
    t: usize,
    scatter: bool,
    start: i64,
) -> (r: i128)
    requires
        i < inner,
        forall|j: int| 0 <= j < m ==> 0 <= #[trigger] ((o * m + j) * inner + i) < values@.len(),
        values@.len() == indices@.len() || !scatter,
        !scatter ==> indices@.len() == m,
    ensures
        r == start + assigned_sum(values@, indices@, m as int, inner as int, o as int, i as int, t as int, scatter, m as int),
{
    let _lv = values.len();
    let mut acc: i128 = start as i128;
    let mut j: usize = 0;
    while j < m
        invariant
            j <= m,
            i < inner,
            forall|j2: int| 0 <= j2 < m ==> 0 <= #[trigger] ((o * m + j2) * inner + i) < values@.len(),
            values@.len() == indices@.len() || !scatter,
            !scatter ==> indices@.len() == m,
            values@.len() <= usize::MAX,
            acc == start + assigned_sum(values@, indices@, m as int, inner as int, o as int, i as int, t as int, scatter, j as int),
            (i64::MIN as int) * (j as int + 1) <= acc <= (i64::MAX as int) * (j as int + 1),
        decreases m - j,
    {
        assert(0 <= (o * m + j) * inner + i < values@.len());
        let pos = fiber_pos(o, m, j, inner, i, values.len());
        let key = if scatter {
            indices[pos]
        } else {
            indices[j]
        };
        if key as i128 == t as i128 {
            acc = acc + values[pos] as i128;
        }
        j = j + 1;
    }
    acc
}

impl Tensor<i64> {
    fn assign_along(self, dim: usize, indices: &Tensor<i64>, values: &Tensor<i64>, scatter: bool) -> (r: Tensor<i64>)
        requires
            self.wf(),
            values.wf(),
            dim < self.shape@.len(),
            same_but(self.shape@, values.shape@, dim as int),
            scatter ==> indices.data@.len() == values.data@.len(),
            !scatter ==> indices.data@.len() == values.shape@[dim as int],
            outer_size(self.shape@, dim as int) <= usize::MAX,
            inner_size(self.shape@, dim as int) <= usize::MAX,
            forall|p: int| 0 <= p < self.data@.len() ==> i64::MIN <= #[trigger] self.data@[p] + assigned_at(
                values.data@,
                indices.data@,
                values.shape@[dim as int] as int,
                inner_size(self.shape@, dim as int) as int,
                self.shape@[dim as int] as int,
                p,
                scatter,
            ) <= i64::MAX,
        ensures
            r.wf(),
            r.shape@ == self.shape@,
            forall|p: int| 0 <= p < r.data@.len() ==> #[trigger] r.data@[p] == self.data@[p] + assigned_at(
                values.data@,
                indices.data@,
                values.shape@[dim as int] as int,
                inner_size(self.shape@, dim as int) as int,
                self.shape@[dim as int] as int,
                p,
                scatter,
            ),
    {
        let (outer, inner) = split_sizes(&self.shape, dim);
        let d = self.shape[dim];
        let m = values.shape[dim];
        let ghost sh = self.shape@;
        proof {
            lemma_split_shape(sh, dim as int);
            lemma_split_shape(values.shape@, dim as int);
            lemma_same_but_sizes(sh, values.shape@, dim as int);
        }
        let total = self.data.len();
        let vtotal = values.data.len();
        let mut data: Vec<i64> = Vec::new();
        let mut p: usize = 0;
        while p < total
            invariant
                p <= total,
                total == self.data@.len(),
                vtotal == values.data@.len(),
                total == outer * d * inner,
                vtotal == outer * m * inner,
                d == sh[dim as int],
                sh == self.shape@,
                m == values.shape@[dim as int],
                inner == inner_size(sh, dim as int),
                scatter ==> indices.data@.len() == values.data@.len(),
                !scatter ==> indices.data@.len() == m,
                forall|p2: int| 0 <= p2 < self.data@.len() ==> i64::MIN <= #[trigger] self.data@[p2] + assigned_at(
                    values.data@, indices.data@, m as int, inner as int, d as int, p2, scatter) <= i64::MAX,
                data@.len() == p,
                forall|p2: int| 0 <= p2 < p ==> #[trigger] data@[p2] == self.data@[p2] + assigned_at(
                    values.data@, indices.data@, m as int, inner as int, d as int, p2, scatter),
            decreases total - p,
        {
            let ghost pi = p as int;
            proof {
                lemma_moved_pos(pi, outer as int, d as int, inner as int, 1, 0);
                assert(d * inner <= total) by (nonlinear_arith)
                    requires
                        total == outer * d * inner,
                        0 <= pi < total,
                        d >= 0,
                        inner >= 0,
                ;
            }
            let di_ = d * inner;
            let o = p / di_;
            let t = (p / inner) % d;
            let i = p % inner;
            proof {
                let oi = o as int;
                assert(0 <= oi < outer) by (nonlinear_arith)
                    requires
                        0 <= pi < outer * d * inner,
                        d * inner > 0,
                        oi == pi / (d * inner),
                ;
                assert forall|j: int| 0 <= j < m implies 0 <= #[trigger] ((o * m + j) * inner + i) < values.data@.len() by {
                    lemma_fiber_index(outer as int, m as int, inner as int, oi, j, i as int);
                }
            }
            let v = accumulate(&values.data, &indices.data, m, inner, o, i, t, scatter, self.data[p]);
            data.push(v as i64);
            p = p + 1;
        }
        Tensor { shape: self.shape, data }
    }

    /// Adds each slice of `values` along dimension `dim` to the slice of the
    /// tensor at the matching position of `indices`:
    /// `input[.., indices[j], ..] += values[.., j, ..]`.
    pub fn select_assign(self, dim: usize, indices: Tensor<i64>, values: Tensor<i64>) -> (r: Tensor<i64>)
        requires
            self.wf(),
            values.wf(),
            dim < self.shape@.len(),
            same_but(self.shape@, values.shape@, dim as int),
            indices.data@.len() == values.shape@[dim as int],
            outer_size(self.shape@, dim as int) <= usize::MAX,
            inner_size(self.shape@, dim as int) <= usize::MAX,
            forall|p: int| 0 <= p < self.data@.len() ==> i64::MIN <= #[trigger] self.data@[p] + assigned_at(
                values.data@,
                indices.data@,
                values.shape@[dim as int] as int,
                inner_size(self.shape@, dim as int) as int,
                self.shape@[dim as int] as int,
                p,
                false,
            ) <= i64::MAX,
        ensures
            r.wf(),
            r.shape@ == self.shape@,
            forall|p: int| 0 <= p < r.data@.len() ==> #[trigger] r.data@[p] == self.data@[p] + assigned_at(
                values.data@,
                indices.data@,
                values.shape@[dim as int] as int,
                inner_size(self.shape@, dim as int) as int,
                self.shape@[dim as int] as int,
                p,
                false,
            ),
    {
        self.assign_along(dim, &indices, &values, false)
    }

    /// Adds each element of `values` to the element of the tensor whose
    /// position along dimension `dim` the index tensor holds at the value's
    /// position: for `dim = 0`, `input[indices[i, j], j] += values[i, j]`.
    pub fn scatter(self, dim: usize, indices: Tensor<i64>, values: Tensor<i64>) -> (r: Tensor<i64>)
        requires
            self.wf(),
            values.wf(),
            dim < self.shape@.len(),
            same_but(self.shape@, values.shape@, dim as int),
            indices.shape@ == values.shape@,
            indices.data@.len() == values.data@.len(),
            outer_size(self.shape@, dim as int) <= usize::MAX,
            inner_size(self.shape@, dim as int) <= usize::MAX,
            forall|p: int| 0 <= p < self.data@.len() ==> i64::MIN <= #[trigger] self.data@[p] + assigned_at(
                values.data@,
                indices.data@,
                values.shape@[dim as int] as int,
                inner_size(self.shape@, dim as int) as int,
                self.shape@[dim as int] as int,
                p,
                true,
            ) <= i64::MAX,
        ensures
            r.wf(),
            r.shape@ == self.shape@,
            forall|p: int| 0 <= p < r.data@.len() ==> #[trigger] r.data@[p] == self.data@[p] + assigned_at(
                values.data@,
                indices.data@,
                values.shape@[dim as int] as int,
                inner_size(self.shape@, dim as int) as int,
                self.shape@[dim as int] as int,
                p,
                true,
            ),
    {
        self.assign_along(dim, &indices, &values, true)
    }
}

} // verus!
