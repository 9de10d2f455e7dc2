//! Checks of tensor operations: each check gathers every problem it finds,
//! with a message, instead of stopping at the first.
use vstd::prelude::*;
use vstd::string::StringExecFns;

use crate::tensor::{num_elements, shape_num_elements, Device, Tensor};
use core::ops::Range;
use crate::text::{decimal, usize_to_decimal};

verus! {

/// One problem found by a check: what is wrong, and the values involved.
#[derive(Debug)]
pub struct TensorError {
    pub description: String,
    pub details: Option<String>,
}

/// The problems found by a failed check, and the operation checked.
#[derive(Debug)]
pub struct FailedTensorCheck {
    pub ops: String,
    pub errors: Vec<TensorError>,
}

/// The outcome of a check.
#[derive(Debug)]
pub enum TensorCheck {
    Passed,
    Failed(FailedTensorCheck),
}

impl TensorError {
    /// A problem with a description and no details.
    pub fn new(description: String) -> (r: TensorError)
        ensures
            r.description@ == description@,
            r.details is None,
    {
        TensorError { description, details: None }
    }

    /// Adds details to the problem.
    pub fn details(self, details: String) -> (r: TensorError)
        ensures
            r.description@ == self.description@,
            r.details matches Some(d) && d@ == details@,
    {
        TensorError { description: self.description, details: Some(details) }
    }

    /// The text of the problem as item `number` of a list.
    pub open spec fn text(self, number: nat) -> Seq<char> {
        "\n    "@ + decimal(number) + ". "@ + self.description@ + " "@ + match self.details {
            Some(d) => d@ + " "@,
            None => Seq::empty(),
        }
    }

    /// Formats the problem as item `number` of a list.
    pub fn format(self, number: usize) -> (r: String)
        ensures
            r@ == self.text(number as nat),
    {
        let mut message = String::from_str("\n    ");
        let n = usize_to_decimal(number);
        message.append(n.as_str());
        message.append(". ");
        message.append(self.description.as_str());
        message.append(" ");
        match self.details {
            Some(d) => {
                message.append(d.as_str());
                message.append(" ");
            },
            None => {},
        }
        message
    }
}

/// The texts of the problems, numbered from `first`.
pub open spec fn errors_text(errors: Seq<TensorError>, first: nat) -> Seq<char>
    decreases errors.len(),
{
    if errors.len() == 0 {
        Seq::empty()
    } else {
        errors[0].text(first) + errors_text(errors.drop_first(), first + 1)
    }
}

impl FailedTensorCheck {
    /// The message of the failed check.
    pub open spec fn message(self) -> Seq<char> {
        "=== Tensor Operation Error ===\n  Operation: '"@ + self.ops@ + "'\n  Reason:"@
            + errors_text(self.errors@, 1) + "\n"@
    }

    /// Formats all the problems into one message, numbered from one.
    pub fn format(self) -> (r: String)
        requires
            self.errors@.len() < usize::MAX,
        ensures
            r@ == self.message(),
    {
        let ghost errs = self.errors@;
        let mut message = String::from_str("=== Tensor Operation Error ===\n  Operation: '");
        message.append(self.ops.as_str());
        message.append("'\n  Reason:");
        let ghost head = message@;
        let mut errors = self.errors;
        let mut i: usize = 0;
        while errors.len() > 0
            invariant
                i + errors@.len() == errs.len(),
                errs.len() < usize::MAX,
                errors@ == errs.subrange(i as int, errs.len() as int),
                message@ + errors_text(errors@, (i + 1) as nat) == head + errors_text(errs, 1),
            decreases errors@.len(),
        {
            let e = errors.remove(0);
            let t = e.format(i + 1);
            message.append(t.as_str());
            proof {
                assert(errors@ =~= errs.subrange(i + 1, errs.len() as int));
            }
            i = i + 1;
        }
        message.append("\n");
        assert(errs.subrange(0, errs.len() as int) =~= errs);
        message
    }
}

/// The problems a check found; none when it passed.
pub open spec fn errors_of(c: TensorCheck) -> Seq<TensorError> {
    match c {
        TensorCheck::Passed => Seq::empty(),
        TensorCheck::Failed(f) => f.errors@,
    }
}

/// The descriptions of the problems a check found.
pub open spec fn descriptions(c: TensorCheck) -> Seq<Seq<char>> {
    errors_of(c).map_values(|e: TensorError| e.description@)
}

/// The operation a failed check names.
pub open spec fn ops_of(c: TensorCheck) -> Seq<char> {
    match c {
        TensorCheck::Passed => Seq::empty(),
        TensorCheck::Failed(f) => f.ops@,
    }
}

/// `c` failed on operation `ops` with exactly one problem, described by
/// `desc`, whose details are `details`.
pub open spec fn fails_once(c: TensorCheck, ops: Seq<char>, desc: Seq<char>, details: Option<Seq<char>>) -> bool {
    &&& c is Failed
    &&& ops_of(c) == ops
    &&& errors_of(c).len() == 1
    &&& errors_of(c)[0].description@ == desc
    &&& match (errors_of(c)[0].details, details) {
        (Some(d), Some(t)) => d@ == t,
        (None, None) => true,
        _ => false,
    }
}

/// The text of a list of dimensions: `[a, b, c]`.
pub open spec fn dims_text(s: Seq<usize>) -> Seq<char> {
    "["@ + dims_items(s) + "]"@
}

/// The dimensions separated by `, `.
pub open spec fn dims_items(s: Seq<usize>) -> Seq<char>
    decreases s.len(),
{
    if s.len() == 0 {
        Seq::empty()
    } else if s.len() == 1 {
        decimal(s[0] as nat)
    } else {
        dims_items(s.drop_last()) + ", "@ + decimal(s.last() as nat)
    }
}

fn dims_debug(v: &Vec<usize>) -> (r: String)
    ensures
        r@ == dims_text(v@),
{
    let mut r = String::from_str("[");
    let mut i: usize = 0;
    while i < v.len()
        invariant
            i <= v@.len(),
            r@ == "["@ + dims_items(v@.subrange(0, i as int)),
        decreases v@.len() - i,
    {
        if i > 0 {
            r.append(", ");
        }
        let d = usize_to_decimal(v[i]);
        r.append(d.as_str());
        proof {
            let s = v@.subrange(0, i + 1);
            assert(s.drop_last() =~= v@.subrange(0, i as int));
            if i == 0 {
                assert(v@.subrange(0, 0) =~= Seq::<usize>::empty());
            }
            assert(r@ =~= "["@ + dims_items(s));
        }
        i = i + 1;
    }
    r.append("]");
    assert(v@.subrange(0, v@.len() as int) =~= v@);
    r
}

fn error_with(description: &str, details: Option<String>) -> (r: TensorError)
    ensures
        r.description@ == description@,
        match (r.details, details) {
            (Some(d), Some(t)) => d@ == t@,
            (None, None) => true,
            _ => false,
        },
{
    let e = TensorError::new(String::from_str(description));
    match details {
        Some(d) => e.details(d),
        None => e,
    }
}

impl TensorCheck {
    /// Adds a problem found while checking `ops`.
    pub fn register(self, ops: &str, error: TensorError) -> (r: TensorCheck)
        ensures
            r is Failed,
            ops_of(r) == ops@,
            errors_of(r) == errors_of(self).push(error),
    {
        let errors = match self {
            TensorCheck::Passed => {
                let mut v: Vec<TensorError> = Vec::new();
                v.push(error);
                assert(v@ =~= Seq::<TensorError>::empty().push(error));
                v
            },
            TensorCheck::Failed(failed) => {
                let mut errors = failed.errors;
                errors.push(error);
                errors
            },
        };
        TensorCheck::Failed(FailedTensorCheck { ops: String::from_str(ops), errors })
    }

    /// A tensor converts into a scalar only when it has one element.
    pub fn into_scalar(shape: &Vec<usize>) -> (r: TensorCheck)
        requires
            num_elements(shape@) <= usize::MAX,
        ensures
            r is Passed <==> num_elements(shape@) == 1,
            r is Failed ==> fails_once(
                r,
                "Into Scalar"@,
                "Only tensors with 1 element can be converted into scalar."@,
                Some("Current tensor has "@ + decimal(num_elements(shape@)) + " elements"@),
            ),
    {
        let n = match shape_num_elements(shape) {
            Some(n) => n,
            None => 0,
        };
        if n != 1 {
            let mut d = String::from_str("Current tensor has ");
            let t = usize_to_decimal(n);
            d.append(t.as_str());
            d.append(" elements");
            TensorCheck::Passed.register(
                "Into Scalar",
                error_with("Only tensors with 1 element can be converted into scalar.", Some(d)),
            )
        } else {
            TensorCheck::Passed
        }
    }

    /// A dimension must lie below the rank.
    pub fn dim_ops(ops: &str, dim: usize, rank: usize) -> (r: TensorCheck)
        ensures
            r is Passed <==> dim < rank,
            r is Failed ==> fails_once(
                r,
                ops@,
                "Given dimension is higher than the tensor rank."@,
                Some("Tensor rank: '"@ + decimal(rank as nat) + "', given dimension: '"@ + decimal(dim as nat) + "'."@),
            ),
    {
        if dim >= rank {
            let mut d = String::from_str("Tensor rank: '");
            d.append(usize_to_decimal(rank).as_str());
            d.append("', given dimension: '");
            d.append(usize_to_decimal(dim).as_str());
            d.append("'.");
            TensorCheck::Passed.register(ops, error_with("Given dimension is higher than the tensor rank.", Some(d)))
        } else {
            TensorCheck::Passed
        }
    }

    /// A reshape keeps the number of elements.
    pub fn reshape(original: &Vec<usize>, target: &Vec<usize>) -> (r: TensorCheck)
        requires
            num_elements(original@) <= usize::MAX,
            num_elements(target@) <= usize::MAX,
        ensures
            r is Passed <==> num_elements(original@) == num_elements(target@),
            r is Failed ==> fails_once(
                r,
                "Reshape"@,
                "The given shape doesn't have the same number of elements as the current tensor."@,
                Some("Current shape: "@ + dims_text(original@) + ", target shape: "@ + dims_text(target@) + "."@),
            ),
    {
        let a = shape_num_elements(original);
        let b = shape_num_elements(target);
        if a != b {
            let mut d = String::from_str("Current shape: ");
            d.append(dims_debug(original).as_str());
            d.append(", target shape: ");
            d.append(dims_debug(target).as_str());
            d.append(".");
            TensorCheck::Passed.register(
                "Reshape",
                error_with(
                    "The given shape doesn't have the same number of elements as the current tensor.",
                    Some(d),
                ),
            )
        } else {
            TensorCheck::Passed
        }
    }

    /// Flattening dimensions `start_dim..=end_dim` of a rank-`d1` tensor into
    /// a rank-`d2` one.
    pub fn flatten(start_dim: usize, end_dim: usize, d1: usize, d2: usize) -> (r: TensorCheck)
        ensures
            r is Passed <==> start_dim <= end_dim && d2 <= d1 && end_dim < d1,
            r is Failed ==> ops_of(r) == "Flatten"@,
            descriptions(r) == (if start_dim > end_dim {
                seq![flatten_order_text(start_dim, end_dim)]
            } else {
                Seq::empty()
            }) + (if d2 > d1 {
                seq![flatten_rank_text(d1, d2)]
            } else {
                Seq::empty()
            }) + (if end_dim >= d1 {
                seq![flatten_end_text(end_dim, d2)]
            } else {
                Seq::empty()
            }),
    {
        let mut check = TensorCheck::Passed;
        let ghost mut expected: Seq<Seq<char>> = Seq::empty();
        if start_dim > end_dim {
            let mut t = String::from_str("The start dim (");
            t.append(usize_to_decimal(start_dim).as_str());
            t.append(") must be smaller than the end dim (");
            t.append(usize_to_decimal(end_dim).as_str());
            t.append(")");
            check = check.register("Flatten", TensorError::new(t));
            proof {
                expected = expected.push(flatten_order_text(start_dim, end_dim));
            }
        }
        if d2 > d1 {
            let mut t = String::from_str("Result dim (");
            t.append(usize_to_decimal(d2).as_str());
            t.append(") must be smaller than (");
            t.append(usize_to_decimal(d1).as_str());
            t.append(")");
            check = check.register("Flatten", TensorError::new(t));
            proof {
                expected = expected.push(flatten_rank_text(d1, d2));
            }
        }
        if end_dim >= d1 {
            let mut t = String::from_str("The end dim (");
            t.append(usize_to_decimal(end_dim).as_str());
            t.append(") must be greater than the tensor dim (");
            t.append(usize_to_decimal(d2).as_str());
            t.append(")");
            check = check.register("Flatten", TensorError::new(t));
            proof {
                expected = expected.push(flatten_end_text(end_dim, d2));
            }
        }
        assert(descriptions(check) =~= expected);
        check
    }
}

/// Text of a flatten whose start follows its end.
pub open spec fn flatten_order_text(start_dim: usize, end_dim: usize) -> Seq<char> {
    "The start dim ("@ + decimal(start_dim as nat) + ") must be smaller than the end dim ("@ + decimal(
        end_dim as nat,
    ) + ")"@
}

/// Text of a flatten into a higher rank.
pub open spec fn flatten_rank_text(d1: usize, d2: usize) -> Seq<char> {
    "Result dim ("@ + decimal(d2 as nat) + ") must be smaller than ("@ + decimal(d1 as nat) + ")"@
}

/// Text of a flatten whose end lies outside the tensor.
pub open spec fn flatten_end_text(end_dim: usize, d2: usize) -> Seq<char> {
    "The end dim ("@ + decimal(end_dim as nat) + ") must be greater than the tensor dim ("@ + decimal(
        d2 as nat,
    ) + ")"@
}

/// `r` is `base` with problems described by `descs` added for `ops`.
pub open spec fn extends(r: TensorCheck, base: TensorCheck, ops: Seq<char>, descs: Seq<Seq<char>>) -> bool {
    &&& errors_of(r).len() == errors_of(base).len() + descs.len()
    &&& forall|i: int| 0 <= i < errors_of(base).len() ==> #[trigger] errors_of(r)[i] == errors_of(base)[i]
    &&& forall|i: int| 0 <= i < descs.len() ==> (#[trigger] errors_of(r)[errors_of(base).len() + i]).description@ == descs[i]
    &&& (r is Passed <==> base is Passed && descs.len() == 0)
    &&& if descs.len() > 0 {
        ops_of(r) == ops
    } else {
        ops_of(r) == ops_of(base)
    }
}

proof fn lemma_extends_push(r: TensorCheck, base: TensorCheck, ops: Seq<char>, descs: Seq<Seq<char>>, r2: TensorCheck, e: TensorError)
    requires
        extends(r, base, ops, descs),
        r2 is Failed,
        ops_of(r2) == ops,
        errors_of(r2) == errors_of(r).push(e),
    ensures
        extends(r2, base, ops, descs.push(e.description@)),
{
    let n = errors_of(base).len();
    assert forall|i: int| 0 <= i < descs.len() + 1 implies (#[trigger] errors_of(r2)[n + i]).description@ == descs.push(e.description@)[i] by {
        if i < descs.len() {
            assert(errors_of(r2)[n + i] == errors_of(r)[n + i]);
        }
    }
    assert forall|i: int| 0 <= i < n implies #[trigger] errors_of(r2)[i] == errors_of(base)[i] by {
        assert(errors_of(r2)[i] == errors_of(r)[i]);
    }
}

proof fn lemma_extends_refl(base: TensorCheck, ops: Seq<char>)
    ensures
        extends(base, base, ops, Seq::empty()),
{
}

/// Text of an incompatible pair of dimensions.
pub open spec fn incompatible_shapes_text() -> Seq<char> {
    "The provided tensors have incompatible shapes."@
}

/// One problem for each dimension below `n` where the sizes differ and
/// neither is one.
pub open spec fn ew_descs(lhs: Seq<usize>, rhs: Seq<usize>, n: int) -> Seq<Seq<char>>
    decreases n,
{
    if n <= 0 {
        Seq::empty()
    } else {
        ew_descs(lhs, rhs, n - 1) + if lhs[n - 1] != rhs[n - 1] && lhs[n - 1] != 1 && rhs[n - 1] != 1 {
            seq![incompatible_shapes_text()]
        } else {
            Seq::empty()
        }
    }
}

/// Text of a range that exceeds the tensor.
pub open spec fn range_exceeds_text() -> Seq<char> {
    "The provided ranges array has a range that exceeds the current tensor size."@
}

/// Text of a range that starts at or after its end.
pub open spec fn range_order_text() -> Seq<char> {
    "The provided range array has a range where the start index is bigger or equal to its end."@
}

/// Text of a ranges array longer than the rank.
pub open spec fn ranges_rank_text() -> Seq<char> {
    "The provided ranges array has a higher number of dimensions than the current tensor."@
}

/// Text of a value tensor that does not fit the ranges.
pub open spec fn range_value_text() -> Seq<char> {
    "The value tensor must match the amount of elements selected with the ranges array"@
}

/// The problems of the first `n` ranges of a slice.
pub open spec fn slice_descs(shape: Seq<usize>, ranges: Seq<Range<usize>>, n: int) -> Seq<Seq<char>>
    decreases n,
{
    if n <= 0 {
        Seq::empty()
    } else {
        slice_descs(shape, ranges, n - 1) + (if ranges[n - 1].end > shape[n - 1] {
            seq![range_exceeds_text()]
        } else {
            Seq::empty()
        }) + (if ranges[n - 1].start >= ranges[n - 1].end {
            seq![range_order_text()]
        } else {
            Seq::empty()
        })
    }
}

/// The problems of the first `n` ranges of a slice assignment.
pub open spec fn slice_assign_descs(shape: Seq<usize>, value: Seq<usize>, ranges: Seq<Range<usize>>, n: int) -> Seq<Seq<char>>
    decreases n,
{
    if n <= 0 {
        Seq::empty()
    } else {
        let r = ranges[n - 1];
        slice_assign_descs(shape, value, ranges, n - 1) + (if r.end > shape[n - 1] {
            seq![range_exceeds_text()]
        } else {
            Seq::empty()
        }) + (if r.end < r.start || r.end - r.start != value[n - 1] {
            seq![range_value_text()]
        } else {
            Seq::empty()
        }) + (if r.start >= r.end {
            seq![range_order_text()]
        } else {
            Seq::empty()
        })
    }
}

/// Text of an index tensor whose shape differs from the tensor's.
pub open spec fn index_shape_text() -> Seq<char> {
    "The tensor shape should be the same as the index tensor shape."@
}

/// One problem for each dimension below `n`, other than `dim`, where the
/// tensor and the index tensor differ.
pub open spec fn index_descs(dim: usize, shape: Seq<usize>, indices: Seq<usize>, n: int) -> Seq<Seq<char>>
    decreases n,
{
    if n <= 0 {
        Seq::empty()
    } else {
        index_descs(dim, shape, indices, n - 1) + if n - 1 != dim && shape[n - 1] != indices[n - 1] {
            seq![index_shape_text()]
        } else {
            Seq::empty()
        }
    }
}

/// The shape with dimension `dim` ignored.
pub open spec fn without_dim(s: Seq<usize>, dim: int) -> Seq<usize> {
    s.update(dim, 1)
}

impl TensorCheck {
    /// Shapes are compatible for an element-wise operation when, in each
    /// dimension, they agree or one of them is one.
    pub fn binary_ops_ew_shape(self, ops: &str, lhs: &Vec<usize>, rhs: &Vec<usize>) -> (r: TensorCheck)
        requires
            lhs@.len() == rhs@.len(),
        ensures
            extends(r, self, ops@, ew_descs(lhs@, rhs@, lhs@.len() as int)),
    {
        let ghost base = self;
        let mut check = self;
        let mut i: usize = 0;
        proof {
            lemma_extends_refl(base, ops@);
        }
        while i < lhs.len()
            invariant
                i <= lhs@.len(),
                lhs@.len() == rhs@.len(),
                extends(check, base, ops@, ew_descs(lhs@, rhs@, i as int)),
            decreases lhs@.len() - i,
        {
            let d_lhs = lhs[i];
            let d_rhs = rhs[i];
            if d_lhs != d_rhs && d_lhs != 1 && d_rhs != 1 {
                let mut d = String::from_str("Incompatible size at dimension '");
                d.append(usize_to_decimal(i).as_str());
                d.append("' => '");
                d.append(usize_to_decimal(d_lhs).as_str());
                d.append(" != ");
                d.append(usize_to_decimal(d_rhs).as_str());
                d.append("', which can't be broadcasted. Lhs tensor shape ");
                d.append(dims_debug(lhs).as_str());
                d.append(", Rhs tensor shape ");
                d.append(dims_debug(rhs).as_str());
                d.append(".");
                let e = error_with("The provided tensors have incompatible shapes.", Some(d));
                let ghost c0 = check;
                check = check.register(ops, e);
                proof {
                    lemma_extends_push(c0, base, ops@, ew_descs(lhs@, rhs@, i as int), check, e);
                    assert(ew_descs(lhs@, rhs@, i + 1) =~= ew_descs(lhs@, rhs@, i as int).push(e.description@));
                }
            } else {
                assert(ew_descs(lhs@, rhs@, i + 1) =~= ew_descs(lhs@, rhs@, i as int));
            }
            i = i + 1;
        }
        check
    }

    /// Both tensors of an operation live on the same device.
    pub fn binary_ops_device(self, ops: &str, lhs: &Device, rhs: &Device) -> (r: TensorCheck)
        ensures
            extends(r, self, ops@, if lhs != rhs {
                seq!["The provided tensors are not on the same device."@]
            } else {
                Seq::empty()
            }),
    {
        let ghost base = self;
        proof {
            lemma_extends_refl(base, ops@);
        }
        if lhs != rhs {
            let mut d = String::from_str("Lhs tensor device ");
            d.append(usize_to_decimal(lhs.id).as_str());
            d.append(", Rhs tensor device ");
            d.append(usize_to_decimal(rhs.id).as_str());
            d.append(".");
            let e = error_with("The provided tensors are not on the same device.", Some(d));
            let r = self.register(ops, e);
            proof {
                lemma_extends_push(base, base, ops@, Seq::empty(), r, e);
                assert(Seq::<Seq<char>>::empty().push(e.description@) =~= seq!["The provided tensors are not on the same device."@]);
            }
            r
        } else {
            self
        }
    }

    /// Checks the shapes of an element-wise operation on two tensors.
    pub fn binary_ops_ew(ops: &str, lhs: &Tensor<i64>, rhs: &Tensor<i64>) -> (r: TensorCheck)
        requires
            lhs.shape@.len() == rhs.shape@.len(),
        ensures
            extends(r, TensorCheck::Passed, ops@, ew_descs(lhs.shape@, rhs.shape@, lhs.shape@.len() as int)),
    {
        TensorCheck::Passed.binary_ops_ew_shape(ops, &lhs.shape, &rhs.shape)
    }

    /// The ranges of a slice lie inside the tensor and are not empty.
    pub fn slice(shape: &Vec<usize>, ranges: &Vec<Range<usize>>) -> (r: TensorCheck)
        ensures
            extends(r, TensorCheck::Passed, "Slice"@, (if shape@.len() < ranges@.len() {
                seq![ranges_rank_text()]
            } else {
                Seq::empty()
            }) + slice_descs(shape@, ranges@, if shape@.len() < ranges@.len() {
                shape@.len() as int
            } else {
                ranges@.len() as int
            })),
    {
        let ghost base = TensorCheck::Passed;
        let mut check = TensorCheck::Passed;
        let ghost mut pre: Seq<Seq<char>> = Seq::empty();
        proof {
            lemma_extends_refl(base, "Slice"@);
        }
        if shape.len() < ranges.len() {
            let e = error_with(
                "The provided ranges array has a higher number of dimensions than the current tensor.",
                None,
            );
            let ghost c0 = check;
            check = check.register("Slice", e);
            proof {
                lemma_extends_push(c0, base, "Slice"@, Seq::empty(), check, e);
                pre = seq![ranges_rank_text()];
                assert(Seq::<Seq<char>>::empty().push(e.description@) =~= pre);
            }
        }
        let n = if shape.len() < ranges.len() {
            shape.len()
        } else {
            ranges.len()
        };
        let mut i: usize = 0;
        assert(pre + slice_descs(shape@, ranges@, 0) =~= pre);
        while i < n
            invariant
                i <= n,
                n <= shape@.len(),
                n <= ranges@.len(),
                extends(check, base, "Slice"@, pre + slice_descs(shape@, ranges@, i as int)),
            decreases n - i,
        {
            let d_tensor = shape[i];
            let start = ranges[i].start;
            let end = ranges[i].end;
            let ghost mid = pre + slice_descs(shape@, ranges@, i as int);
            if end > d_tensor {
                let e = error_with("The provided ranges array has a range that exceeds the current tensor size.", None);
                let ghost c0 = check;
                check = check.register("Slice", e);
                proof {
                    lemma_extends_push(c0, base, "Slice"@, mid, check, e);
                    mid = mid.push(e.description@);
                }
            }
            if start >= end {
                let e = error_with("The provided range array has a range where the start index is bigger or equal to its end.", None);
                let ghost c0 = check;
                check = check.register("Slice", e);
                proof {
                    lemma_extends_push(c0, base, "Slice"@, mid, check, e);
                    mid = mid.push(e.description@);
                }
            }
            assert(mid =~= pre + slice_descs(shape@, ranges@, i + 1));
            i = i + 1;
        }
        check
    }
}

/// Text of an axis outside the rank.
pub open spec fn axis_text(rank: usize, dim: usize) -> Seq<char> {
    "Can't index a tensor with ("@ + decimal(rank as nat) + ") dimensions on axis ("@ + decimal(
        dim as nat,
    ) + ")"@
}

/// Text of an aggregation over an axis outside the rank.
pub open spec fn aggregate_text(rank: usize, dim: usize) -> Seq<char> {
    "Can't aggregate a tensor with ("@ + decimal(rank as nat) + ") dimensions on axis ("@ + decimal(
        dim as nat,
    ) + ")"@
}

fn axis_message(prefix: &str, rank: usize, dim: usize) -> (r: String)
    ensures
        r@ == prefix@ + decimal(rank as nat) + ") dimensions on axis ("@ + decimal(dim as nat) + ")"@,
{
    let mut t = String::from_str(prefix);
    t.append(usize_to_decimal(rank).as_str());
    t.append(") dimensions on axis (");
    t.append(usize_to_decimal(dim).as_str());
    t.append(")");
    t
}

/// The problems of a slice assignment.
pub open spec fn slice_assign_all_descs(shape: Seq<usize>, value: Seq<usize>, ranges: Seq<Range<usize>>) -> Seq<Seq<char>> {
    (if shape.len() < ranges.len() {
        seq![ranges_rank_text()]
    } else {
        Seq::empty()
    }) + slice_assign_descs(shape, value, ranges, if shape.len() < ranges.len() {
        shape.len() as int
    } else {
        ranges.len() as int
    })
}

impl TensorCheck {
    /// The ranges of a slice assignment lie inside the tensor and select as
    /// many elements as the value tensor holds.
    pub fn slice_assign(shape: &Vec<usize>, shape_value: &Vec<usize>, ranges: &Vec<Range<usize>>) -> (r: TensorCheck)
        requires
            shape@.len() == shape_value@.len(),
        ensures
            descriptions(r) == slice_assign_all_descs(shape@, shape_value@, ranges@),
            r is Passed <==> slice_assign_all_descs(shape@, shape_value@, ranges@).len() == 0,
            r is Failed ==> ops_of(r) == "Slice Assign"@ || ops_of(r) == "Range Assign"@,
    {
        let ghost base = TensorCheck::Passed;
        let mut check = TensorCheck::Passed;
        let ghost mut pre: Seq<Seq<char>> = Seq::empty();
        if shape.len() < ranges.len() {
            let e = error_with(
                "The provided ranges array has a higher number of dimensions than the current tensor.",
                None,
            );
            let ghost c0 = check;
            check = check.register("Slice Assign", e);
            proof {
                lemma_extends_refl(base, "Slice Assign"@);
                lemma_extends_push(c0, base, "Slice Assign"@, Seq::empty(), check, e);
                pre = seq![ranges_rank_text()];
                assert(Seq::<Seq<char>>::empty().push(e.description@) =~= pre);
            }
        }
        let n = if shape.len() < ranges.len() {
            shape.len()
        } else {
            ranges.len()
        };
        let mut i: usize = 0;
        assert(pre + slice_assign_descs(shape@, shape_value@, ranges@, 0) =~= pre);
        while i < n
            invariant
                i <= n,
                n <= shape@.len(),
                n <= ranges@.len(),
                shape@.len() == shape_value@.len(),
                errors_of(base).len() == 0,
                base is Passed,
                errors_of(check).len() == (pre + slice_assign_descs(shape@, shape_value@, ranges@, i as int)).len(),
                forall|k: int| 0 <= k < errors_of(check).len() ==> (#[trigger] errors_of(check)[k]).description@ == (pre + slice_assign_descs(shape@, shape_value@, ranges@, i as int))[k],
                check is Passed <==> errors_of(check).len() == 0,
                check is Failed ==> ops_of(check) == "Slice Assign"@ || ops_of(check) == "Range Assign"@,
            decreases n - i,
        {
            let d_tensor = shape[i];
            let d_value = shape_value[i];
            let start = ranges[i].start;
            let end = ranges[i].end;
            let ghost mid = pre + slice_assign_descs(shape@, shape_value@, ranges@, i as int);
            if end > d_tensor {
                let e = error_with("The provided ranges array has a range that exceeds the current tensor size.", None);
                check = check.register("Range Assign", e);
                proof {
                    mid = mid.push(e.description@);
                }
            }
            if end < start || end - start != d_value {
                let e = error_with("The value tensor must match the amount of elements selected with the ranges array", None);
                check = check.register("Slice Assign", e);
                proof {
                    mid = mid.push(e.description@);
                }
            }
            if start >= end {
                let e = error_with("The provided range array has a range where the start index is bigger or equal to its end.", None);
                check = check.register("Slice Assign", e);
                proof {
                    mid = mid.push(e.description@);
                }
            }
            assert(mid =~= pre + slice_assign_descs(shape@, shape_value@, ranges@, i + 1));
            i = i + 1;
        }
        assert(descriptions(check) =~= slice_assign_all_descs(shape@, shape_value@, ranges@));
        check
    }

    fn check_select_basic(check: TensorCheck, ops: &str, dim: usize, rank: usize) -> (r: TensorCheck)
        ensures
            extends(r, check, ops@, if dim > rank {
                seq![axis_text(rank, dim)]
            } else {
                Seq::empty()
            }),
    {
        let ghost base = check;
        proof {
            lemma_extends_refl(base, ops@);
        }
        if dim > rank {
            let t = axis_message("Can't index a tensor with (", rank, dim);
            let e = TensorError::new(t);
            let r = check.register(ops, e);
            proof {
                reveal_strlit("Can't index a tensor with (");
                lemma_extends_push(base, base, ops@, Seq::empty(), r, e);
                assert(Seq::<Seq<char>>::empty().push(e.description@) =~= seq![axis_text(rank, dim)]);
            }
            r
        } else {
            check
        }
    }

    /// The axis of a selection lies within the rank.
    pub fn select(dim: usize, rank: usize) -> (r: TensorCheck)
        ensures
            extends(r, TensorCheck::Passed, "select"@, if dim > rank {
                seq![axis_text(rank, dim)]
            } else {
                Seq::empty()
            }),
    {
        Self::check_select_basic(TensorCheck::Passed, "select", dim, rank)
    }

    /// The axis of a selective assignment lies within the rank.
    pub fn select_assign(dim: usize, rank: usize) -> (r: TensorCheck)
        ensures
            extends(r, TensorCheck::Passed, "select_assign"@, if dim > rank {
                seq![axis_text(rank, dim)]
            } else {
                Seq::empty()
            }),
    {
        Self::check_select_basic(TensorCheck::Passed, "select_assign", dim, rank)
    }

    fn check_gather_scatter_indices(check: TensorCheck, ops: &str, dim: usize, shape: &Vec<usize>, shape_indices: &Vec<usize>) -> (r: TensorCheck)
        requires
            shape@.len() == shape_indices@.len(),
        ensures
            extends(r, check, ops@, (if dim > shape@.len() {
                seq![axis_text(shape@.len() as usize, dim)]
            } else {
                Seq::empty()
            }) + index_descs(dim, shape@, shape_indices@, shape@.len() as int)),
    {
        let ghost base = check;
        let rank = shape.len();
        let mut check = Self::check_select_basic(check, ops, dim, rank);
        let ghost pre = if dim > rank {
            seq![axis_text(rank, dim)]
        } else {
            Seq::<Seq<char>>::empty()
        };
        let mut i: usize = 0;
        assert(pre + index_descs(dim, shape@, shape_indices@, 0) =~= pre);
        while i < rank
            invariant
                i <= rank,
                rank == shape@.len(),
                shape@.len() == shape_indices@.len(),
                extends(check, base, ops@, pre + index_descs(dim, shape@, shape_indices@, i as int)),
            decreases rank - i,
        {
            let ghost mid = pre + index_descs(dim, shape@, shape_indices@, i as int);
            if i != dim && shape[i] != shape_indices[i] {
                let mut d = String::from_str("The shape differs at dimension ");
                d.append(usize_to_decimal(i).as_str());
                d.append(": ");
                d.append(usize_to_decimal(shape[i]).as_str());
                d.append(" != ");
                d.append(usize_to_decimal(shape_indices[i]).as_str());
                let e = error_with("The tensor shape should be the same as the index tensor shape.", Some(d));
                let ghost c0 = check;
                check = check.register(ops, e);
                proof {
                    lemma_extends_push(c0, base, ops@, mid, check, e);
                    mid = mid.push(e.description@);
                }
            }
            assert(mid =~= pre + index_descs(dim, shape@, shape_indices@, i + 1));
            i = i + 1;
        }
        check
    }

    /// The index tensor of a gather has the tensor's shape but along `dim`.
    pub fn gather(dim: usize, shape: &Vec<usize>, shape_indices: &Vec<usize>) -> (r: TensorCheck)
        requires
            shape@.len() == shape_indices@.len(),
        ensures
            extends(r, TensorCheck::Passed, "Gather"@, (if dim > shape@.len() {
                seq![axis_text(shape@.len() as usize, dim)]
            } else {
                Seq::empty()
            }) + index_descs(dim, shape@, shape_indices@, shape@.len() as int)),
    {
        Self::check_gather_scatter_indices(TensorCheck::Passed, "Gather", dim, shape, shape_indices)
    }

    /// The index tensor of a scatter has the tensor's shape but along `dim`,
    /// and the value tensor has the index tensor's shape.
    pub fn scatter(dim: usize, shape: &Vec<usize>, shape_indices: &Vec<usize>, shape_value: &Vec<usize>) -> (r: TensorCheck)
        requires
            shape@.len() == shape_indices@.len(),
        ensures
            extends(r, TensorCheck::Passed, "Scatter"@, (if dim > shape@.len() {
                seq![axis_text(shape@.len() as usize, dim)]
            } else {
                Seq::empty()
            }) + index_descs(dim, shape@, shape_indices@, shape@.len() as int) + if shape_indices@ != shape_value@ {
                seq!["Indices tensor shape should be the same as the value tensor shape."@]
            } else {
                Seq::empty()
            }),
    {
        let ghost base = TensorCheck::Passed;
        let check = Self::check_gather_scatter_indices(TensorCheck::Passed, "Scatter", dim, shape, shape_indices);
        let ghost mid = (if dim > shape@.len() {
            seq![axis_text(shape@.len() as usize, dim)]
        } else {
            Seq::<Seq<char>>::empty()
        }) + index_descs(dim, shape@, shape_indices@, shape@.len() as int);
        if !crate::text::dims_eq(shape_indices, shape_value) {
            let mut d = String::from_str("The shape differs: ");
            d.append(dims_debug(shape_indices).as_str());
            d.append(" != ");
            d.append(dims_debug(shape_value).as_str());
            let e = error_with("Indices tensor shape should be the same as the value tensor shape.", Some(d));
            let r = check.register("Scatter", e);
            proof {
                lemma_extends_push(check, base, "Scatter"@, mid, r, e);
            }
            r
        } else {
            assert(mid + Seq::<Seq<char>>::empty() =~= mid);
            check
        }
    }

    /// An aggregation axis lies within the rank.
    pub fn aggregate_dim(ops: &str, dim: usize, rank: usize) -> (r: TensorCheck)
        ensures
            r is Passed <==> dim <= rank,
            r is Failed ==> fails_once(r, ops@, aggregate_text(rank, dim), None),
    {
        if dim > rank {
            let t = axis_message("Can't aggregate a tensor with (", rank, dim);
            proof {
                reveal_strlit("Can't aggregate a tensor with (");
            }
            TensorCheck::Passed.register(ops, TensorError::new(t))
        } else {
            TensorCheck::Passed
        }
    }

    /// Only a dimension of size one can be squeezed.
    pub fn squeeze(dim: usize, tensor_dims: &Vec<usize>) -> (r: TensorCheck)
        requires
            dim < tensor_dims@.len(),
        ensures
            r is Passed <==> tensor_dims@[dim as int] == 1,
            r is Failed ==> fails_once(
                r,
                "Squeeze"@,
                "Can't squeeze dimension "@ + decimal(dim as nat) + " because its size is not 1"@,
                None,
            ),
    {
        if tensor_dims[dim] != 1 {
            let mut t = String::from_str("Can't squeeze dimension ");
            t.append(usize_to_decimal(dim).as_str());
            t.append(" because its size is not 1");
            TensorCheck::Passed.register("Squeeze", TensorError::new(t))
        } else {
            TensorCheck::Passed
        }
    }

    /// Unsqueezing never lowers the rank.
    pub fn unsqueeze(d1: usize, d2: usize) -> (r: TensorCheck)
        ensures
            r is Passed <==> d2 >= d1,
            r is Failed ==> fails_once(
                r,
                "Unsqueeze"@,
                "Can't unsqueeze smaller tensor, got dim "@ + decimal(d2 as nat) + ", expected > "@ + decimal(d1 as nat),
                None,
            ),
    {
        if d2 < d1 {
            let mut t = String::from_str("Can't unsqueeze smaller tensor, got dim ");
            t.append(usize_to_decimal(d2).as_str());
            t.append(", expected > ");
            t.append(usize_to_decimal(d1).as_str());
            TensorCheck::Passed.register("Unsqueeze", TensorError::new(t))
        } else {
            TensorCheck::Passed
        }
    }

    /// Swapped dimensions lie within the rank.
    pub fn swap_dims(dim1: usize, dim2: usize, rank: usize) -> (r: TensorCheck)
        ensures
            r is Passed <==> dim1 <= rank && dim2 <= rank,
            r is Failed ==> fails_once(
                r,
                "Swap Dims"@,
                "The swap dimensions must be smaller than the tensor dimension"@,
                Some("Swap dims ("@ + decimal(dim1 as nat) + ", "@ + decimal(dim2 as nat) + ") on tensor with ("@ + decimal(rank as nat) + ") dimensions."@),
            ),
    {
        if dim1 > rank || dim2 > rank {
            let mut d = String::from_str("Swap dims (");
            d.append(usize_to_decimal(dim1).as_str());
            d.append(", ");
            d.append(usize_to_decimal(dim2).as_str());
            d.append(") on tensor with (");
            d.append(usize_to_decimal(rank).as_str());
            d.append(") dimensions.");
            TensorCheck::Passed.register(
                "Swap Dims",
                error_with("The swap dimensions must be smaller than the tensor dimension", Some(d)),
            )
        } else {
            TensorCheck::Passed
        }
    }

    /// A matrix product needs both tensors on one device and, from rank two
    /// on, equal inner dimensions.
    pub fn matmul(lhs: &Vec<usize>, rhs: &Vec<usize>, lhs_device: &Device, rhs_device: &Device) -> (r: TensorCheck)
        requires
            lhs@.len() == rhs@.len(),
        ensures
            extends(r, TensorCheck::Passed, "Matmul"@, (if lhs_device != rhs_device {
                seq!["The provided tensors are not on the same device."@]
            } else {
                Seq::empty()
            }) + if lhs@.len() >= 2 && lhs@[lhs@.len() - 1] != rhs@[rhs@.len() - 2] {
                seq![matmul_text(lhs@[lhs@.len() - 1], rhs@[rhs@.len() - 2])]
            } else {
                Seq::empty()
            }),
    {
        let ghost base = TensorCheck::Passed;
        let check = TensorCheck::Passed.binary_ops_device("Matmul", lhs_device, rhs_device);
        let ghost pre = if lhs_device != rhs_device {
            seq!["The provided tensors are not on the same device."@]
        } else {
            Seq::<Seq<char>>::empty()
        };
        let rank = lhs.len();
        if rank < 2 {
            assert(pre + Seq::<Seq<char>>::empty() =~= pre);
            return check;
        }
        let dim_lhs = lhs[rank - 1];
        let dim_rhs = rhs[rank - 2];
        if dim_lhs != dim_rhs {
            let mut t = String::from_str("The inner dimension of matmul should be the same, but got ");
            t.append(usize_to_decimal(dim_lhs).as_str());
            t.append(" and ");
            t.append(usize_to_decimal(dim_rhs).as_str());
            t.append(".");
            let mut d = String::from_str("Lhs shape ");
            d.append(dims_debug(lhs).as_str());
            d.append(", rhs shape ");
            d.append(dims_debug(rhs).as_str());
            d.append(".");
            let e = TensorError::new(t).details(d);
            let r = check.register("Matmul", e);
            proof {
                lemma_extends_push(check, base, "Matmul"@, pre, r, e);
                assert(pre.push(e.description@) =~= pre + seq![matmul_text(dim_lhs, dim_rhs)]);
            }
            r
        } else {
            assert(pre + Seq::<Seq<char>>::empty() =~= pre);
            check
        }
    }

    /// Concatenated tensors agree on every dimension but `dim`, which lies
    /// within the rank; there is at least one tensor. Stops at the first
    /// problem that makes the others meaningless.
    pub fn cat(shapes: &Vec<Vec<usize>>, dim: usize, rank: usize) -> (r: TensorCheck)
        requires
            forall|i: int| 0 <= i < shapes@.len() ==> (#[trigger] shapes@[i])@.len() == rank,
        ensures
            dim >= rank ==> fails_once(
                r,
                "Cat"@,
                "Can't concatenate tensors on a dim that exceeds the tensors dimension"@,
                Some("Trying to concatenate tensors with "@ + decimal(rank as nat) + " dimensions on axis "@ + decimal(dim as nat) + "."@),
            ),
            dim < rank && shapes@.len() == 0 ==> fails_once(r, "Cat"@, "Can't concatenate an empty list of tensors."@, None),
            dim < rank && shapes@.len() > 0 ==> (r is Passed <==> forall|i: int| 0 <= i < shapes@.len() ==> without_dim((#[trigger] shapes@[i])@, dim as int) == without_dim(shapes@[0]@, dim as int)),
            dim < rank && shapes@.len() > 0 && r is Failed ==> fails_once(
                r,
                "Cat"@,
                "Can't concatenate tensors with different shapes, except for the provided dimension"@,
                None,
            ),
    {
        if dim >= rank {
            let mut d = String::from_str("Trying to concatenate tensors with ");
            d.append(usize_to_decimal(rank).as_str());
            d.append(" dimensions on axis ");
            d.append(usize_to_decimal(dim).as_str());
            d.append(".");
            return TensorCheck::Passed.register(
                "Cat",
                error_with("Can't concatenate tensors on a dim that exceeds the tensors dimension", Some(d)),
            );
        }
        if shapes.len() == 0 {
            return TensorCheck::Passed.register(
                "Cat",
                error_with("Can't concatenate an empty list of tensors.", None),
            );
        }
        let mut i: usize = 0;
        while i < shapes.len()
            invariant
                i <= shapes@.len(),
                shapes@.len() > 0,
                dim < rank,
                forall|k: int| 0 <= k < shapes@.len() ==> (#[trigger] shapes@[k])@.len() == rank,
                forall|k: int| 0 <= k < i ==> without_dim((#[trigger] shapes@[k])@, dim as int) == without_dim(shapes@[0]@, dim as int),
            decreases shapes@.len() - i,
        {
            if !same_except(&shapes[i], &shapes[0], dim) {
                return TensorCheck::Passed.register(
                    "Cat",
                    error_with("Can't concatenate tensors with different shapes, except for the provided dimension", None),
                );
            }
            i = i + 1;
        }
        TensorCheck::Passed
    }
}

/// Text of a matrix product with different inner dimensions.
pub open spec fn matmul_text(dim_lhs: usize, dim_rhs: usize) -> Seq<char> {
    "The inner dimension of matmul should be the same, but got "@ + decimal(dim_lhs as nat) + " and "@
        + decimal(dim_rhs as nat) + "."@
}

fn same_except(a: &Vec<usize>, b: &Vec<usize>, dim: usize) -> (r: bool)
    requires
        a@.len() == b@.len(),
        dim < a@.len(),
    ensures
        r == (without_dim(a@, dim as int) == without_dim(b@, dim as int)),
{
    let mut i: usize = 0;
    while i < a.len()
        invariant
            i <= a@.len(),
            a@.len() == b@.len(),
            dim < a@.len(),
            forall|k: int| 0 <= k < i ==> without_dim(a@, dim as int)[k] == without_dim(b@, dim as int)[k],
        decreases a@.len() - i,
    {
        if i != dim && a[i] != b[i] {
            assert(without_dim(a@, dim as int)[i as int] != without_dim(b@, dim as int)[i as int]);
            return false;
        }
        i = i + 1;
    }
    assert(without_dim(a@, dim as int) =~= without_dim(b@, dim as int));
    true
}

} // verus!
