//! Translation of source nodes into target nodes, one rule per operator kind.
use vstd::prelude::*;

use crate::graph::BurnGraph;
use crate::ir::{
    ArgType, Argument, AttributeValue, ElementType, Node, NodeType, ONNXGraph, State, StateType,
    Tensor, TensorData,
};
use crate::node::{
    BatchNormNode, BinaryNode, BinaryType, BurnNode, ConcatNode, ConstantNode, ConstantValue,
    Conv2dNode, DropoutNode, GlobalAvgPoolNode, LinearNode, MatmulNode, MaxPool2dNode, ParamData,
    ReshapeNode, TensorValue, UnaryNode, UnaryNodeKind,
};
use crate::ty::{
    scalar_kind, scalar_kind_of, ConversionError, ScalarKind, ScalarType, StateField, TensorKind,
    TensorType, Type,
};

verus! {

/// The target tensor type of an argument: float, of the same name and rank.
pub open spec fn arg_tensor_type(a: Argument) -> Result<TensorType, ConversionError> {
    match a.ty {
        ArgType::Tensor(t) => Ok(
            TensorType { name: a.name, dim: t.dim, kind: TensorKind::Float, shape: None },
        ),
        _ => Err(ConversionError::ExpectedTensor),
    }
}

/// The target type of an argument; a rank-0 tensor becomes a `Float64` scalar.
pub open spec fn arg_type(a: Argument) -> Result<Type, ConversionError> {
    match a.ty {
        ArgType::Tensor(t) => if t.dim == 0 {
            Ok(Type::Scalar(ScalarType { name: a.name, kind: ScalarKind::Float64 }))
        } else {
            Ok(
                Type::Tensor(
                    TensorType { name: a.name, dim: t.dim, kind: TensorKind::Float, shape: None },
                ),
            )
        },
        ArgType::Scalar(e) => match scalar_kind_of(e) {
            Some(k) => Ok(Type::Scalar(ScalarType { name: a.name, kind: k })),
            None => Err(ConversionError::UnsupportedScalar(e)),
        },
        ArgType::Shape(_) => Err(ConversionError::ShapeArgument),
    }
}

impl Argument {
    /// Converts a tensor argument to a float tensor type of the same name and
    /// rank.
    pub fn to_tensor_type(&self) -> (r: Result<TensorType, ConversionError>)
        ensures
            r == arg_tensor_type(*self),
    {
        match &self.ty {
            ArgType::Tensor(tensor) => Ok(TensorType::new_float(self.name.clone(), tensor.dim)),
            _ => Err(ConversionError::ExpectedTensor),
        }
    }

    /// Converts an argument to a scalar or tensor type.
    pub fn to_type(&self) -> (r: Result<Type, ConversionError>)
        ensures
            r == arg_type(*self),
    {
        match &self.ty {
            ArgType::Tensor(tensor) => {
                if tensor.dim == 0 {
                    Ok(Type::Scalar(ScalarType::new(self.name.clone(), ScalarKind::Float64)))
                } else {
                    Ok(Type::Tensor(TensorType::new_float(self.name.clone(), tensor.dim)))
                }
            },
            ArgType::Scalar(elem_type) => match scalar_kind(*elem_type) {
                Ok(kind) => Ok(Type::Scalar(ScalarType::new(self.name.clone(), kind))),
                Err(e) => Err(e),
            },
            ArgType::Shape(_) => Err(ConversionError::ShapeArgument),
        }
    }
}

/// The type of input `i`.
pub open spec fn input_type(node: Node, i: int) -> Result<Type, ConversionError> {
    if 0 <= i < node.inputs@.len() {
        arg_type(node.inputs@[i])
    } else {
        Err(ConversionError::MissingInput(i as usize))
    }
}

/// The tensor type of input `i`.
pub open spec fn input_tensor(node: Node, i: int) -> Result<TensorType, ConversionError> {
    if 0 <= i < node.inputs@.len() {
        arg_tensor_type(node.inputs@[i])
    } else {
        Err(ConversionError::MissingInput(i as usize))
    }
}

/// The type of the first output.
pub open spec fn output_type(node: Node) -> Result<Type, ConversionError> {
    if node.outputs@.len() > 0 {
        arg_type(node.outputs@[0])
    } else {
        Err(ConversionError::MissingOutput)
    }
}

/// The tensor type of the first output.
pub open spec fn output_tensor(node: Node) -> Result<TensorType, ConversionError> {
    if node.outputs@.len() > 0 {
        arg_tensor_type(node.outputs@[0])
    } else {
        Err(ConversionError::MissingOutput)
    }
}

fn input_type_of(node: &Node, i: usize) -> (r: Result<Type, ConversionError>)
    ensures
        r == input_type(*node, i as int),
{
    if i < node.inputs.len() {
        node.inputs[i].to_type()
    } else {
        Err(ConversionError::MissingInput(i))
    }
}

fn input_tensor_of(node: &Node, i: usize) -> (r: Result<TensorType, ConversionError>)
    ensures
        r == input_tensor(*node, i as int),
{
    if i < node.inputs.len() {
        node.inputs[i].to_tensor_type()
    } else {
        Err(ConversionError::MissingInput(i))
    }
}

fn output_type_of(node: &Node) -> (r: Result<Type, ConversionError>)
    ensures
        r == output_type(*node),
{
    if node.outputs.len() > 0 {
        node.outputs[0].to_type()
    } else {
        Err(ConversionError::MissingOutput)
    }
}

fn output_tensor_of(node: &Node) -> (r: Result<TensorType, ConversionError>)
    ensures
        r == output_tensor(*node),
{
    if node.outputs.len() > 0 {
        node.outputs[0].to_tensor_type()
    } else {
        Err(ConversionError::MissingOutput)
    }
}

/// Binary rule: inputs 0 and 1 as the operands, output 0 as the result.
pub open spec fn binary_spec(node: Node, op: BinaryType) -> Result<BurnNode, ConversionError> {
    match input_type(node, 0) {
        Err(e) => Err(e),
        Ok(lhs) => match input_type(node, 1) {
            Err(e) => Err(e),
            Ok(rhs) => match output_type(node) {
                Err(e) => Err(e),
                Ok(output) => Ok(BurnNode::Binary(BinaryNode { lhs, rhs, output, binary_type: op })),
            },
        },
    }
}

/// Unary rule: input 0 and output 0, with the parameters of `kind`.
pub open spec fn unary_spec(node: Node, kind: UnaryNodeKind) -> Result<BurnNode, ConversionError> {
    match input_type(node, 0) {
        Err(e) => Err(e),
        Ok(input) => match output_type(node) {
            Err(e) => Err(e),
            Ok(output) => Ok(BurnNode::Unary(UnaryNode { input, output, kind })),
        },
    }
}

/// Matrix product rule: both operands and the result are tensors.
pub open spec fn matmul_spec(node: Node) -> Result<BurnNode, ConversionError> {
    match input_tensor(node, 0) {
        Err(e) => Err(e),
        Ok(lhs) => match input_tensor(node, 1) {
            Err(e) => Err(e),
            Ok(rhs) => match output_tensor(node) {
                Err(e) => Err(e),
                Ok(output) => Ok(BurnNode::Matmul(MatmulNode { lhs, rhs, output })),
            },
        },
    }
}

/// The tensor types of input 0 and output 0.
pub open spec fn io_tensors(node: Node) -> Result<(TensorType, TensorType), ConversionError> {
    match input_tensor(node, 0) {
        Err(e) => Err(e),
        Ok(input) => match output_tensor(node) {
            Err(e) => Err(e),
            Ok(output) => Ok((input, output)),
        },
    }
}

fn io_tensors_of(node: &Node) -> (r: Result<(TensorType, TensorType), ConversionError>)
    ensures
        r == io_tensors(*node),
{
    let input = match input_tensor_of(node, 0) {
        Ok(t) => t,
        Err(e) => return Err(e),
    };
    let output = match output_tensor_of(node) {
        Ok(t) => t,
        Err(e) => return Err(e),
    };
    Ok((input, output))
}

/// Global average pooling rule.
pub open spec fn global_avg_pool_spec(node: Node) -> Result<BurnNode, ConversionError> {
    match io_tensors(node) {
        Err(e) => Err(e),
        Ok((input, output)) => Ok(
            BurnNode::GlobalAvgPool(GlobalAvgPoolNode { name: node.name, input, output }),
        ),
    }
}

/// Max pooling rule; the node's attributes configure the layer.
pub open spec fn max_pool2d_spec(node: Node) -> Result<BurnNode, ConversionError> {
    match io_tensors(node) {
        Err(e) => Err(e),
        Ok((input, output)) => Ok(
            BurnNode::MaxPool2d(
                MaxPool2dNode { name: node.name, input, output, config: node.attrs },
            ),
        ),
    }
}

/// Dropout rule; the node's attributes configure the layer.
pub open spec fn dropout_spec(node: Node) -> Result<BurnNode, ConversionError> {
    match io_tensors(node) {
        Err(e) => Err(e),
        Ok((input, output)) => Ok(
            BurnNode::Dropout(DropoutNode { name: node.name, input, output, config: node.attrs }),
        ),
    }
}

/// The `axis` attribute, or `default` where there is none.
pub open spec fn axis_attr(node: Node, default: i64) -> Result<i64, ConversionError> {
    match crate::ir::attr_value(node.attrs@, seq!['a', 'x', 'i', 's']) {
        None => Ok(default),
        Some(AttributeValue::Int64(a)) => Ok(a),
        Some(_) => Err(ConversionError::InvalidAttribute),
    }
}

/// The axis of input 0 that the `axis` attribute names: a negative axis
/// counts from the last dimension.
pub open spec fn axis_config(node: Node, default: i64) -> Result<usize, ConversionError> {
    if node.inputs@.len() == 0 {
        Err(ConversionError::MissingInput(0))
    } else {
        match node.inputs@[0].ty {
            ArgType::Tensor(t) => match axis_attr(node, default) {
                Err(e) => Err(e),
                Ok(a) => {
                    let n: int = if a < 0 { a + t.dim } else { a as int };
                    if 0 <= n < t.dim {
                        Ok(n as usize)
                    } else {
                        Err(ConversionError::InvalidAxis)
                    }
                },
            },
            _ => Err(ConversionError::ExpectedTensor),
        }
    }
}

/// Flatten configuration: an input of rank two or more, flattened from the
/// `axis` attribute (1 by default) to its last dimension.
pub open spec fn flatten_config(node: Node) -> Result<(usize, usize), ConversionError> {
    if node.inputs@.len() > 0 && node.inputs@[0].ty is Tensor && node.inputs@[0].ty->Tensor_0.dim < 2 {
        Err(ConversionError::InvalidRank)
    } else {
        match axis_config(node, 1) {
            Err(e) => Err(e),
            Ok(start) => Ok((start, (node.inputs@[0].ty->Tensor_0.dim - 1) as usize)),
        }
    }
}

/// Flatten rule.
pub open spec fn flatten_spec(node: Node) -> Result<BurnNode, ConversionError> {
    match input_type(node, 0) {
        Err(e) => Err(e),
        Ok(input) => match output_type(node) {
            Err(e) => Err(e),
            Ok(output) => match flatten_config(node) {
                Err(e) => Err(e),
                Ok((start_dim, end_dim)) => Ok(
                    BurnNode::Unary(
                        UnaryNode {
                            input,
                            output,
                            kind: UnaryNodeKind::Flatten { start_dim, end_dim },
                        },
                    ),
                ),
            },
        },
    }
}

/// Log-softmax rule: the axis comes from the `axis` attribute, the last one by
/// default.
pub open spec fn log_softmax_spec(node: Node) -> Result<BurnNode, ConversionError> {
    match input_type(node, 0) {
        Err(e) => Err(e),
        Ok(input) => match output_type(node) {
            Err(e) => Err(e),
            Ok(output) => match axis_config(node, -1i64) {
                Err(e) => Err(e),
                Ok(dim) => Ok(
                    BurnNode::Unary(UnaryNode { input, output, kind: UnaryNodeKind::LogSoftmax { dim } }),
                ),
            },
        },
    }
}

/// The tensor types of all arguments, or the first failure.
pub open spec fn tensor_types(args: Seq<Argument>) -> Result<Seq<TensorType>, ConversionError>
    decreases args.len(),
{
    if args.len() == 0 {
        Ok(Seq::empty())
    } else {
        match tensor_types(args.drop_last()) {
            Err(e) => Err(e),
            Ok(ts) => match arg_tensor_type(args.last()) {
                Err(e) => Err(e),
                Ok(t) => Ok(ts.push(t)),
            },
        }
    }
}

/// Concatenation rule: every input is a tensor; the axis comes from the
/// `axis` attribute, 1 by default.
pub open spec fn concat_spec(node: Node) -> Result<(Seq<TensorType>, TensorType, usize), ConversionError> {
    match tensor_types(node.inputs@) {
        Err(e) => Err(e),
        Ok(inputs) => match output_tensor(node) {
            Err(e) => Err(e),
            Ok(output) => match axis_config(node, 1) {
                Err(e) => Err(e),
                Ok(dim) => Ok((inputs, output, dim)),
            },
        },
    }
}

/// `r` is what the concatenation rule gives for `node`.
pub open spec fn concat_result(node: Node, r: Result<BurnNode, ConversionError>) -> bool {
    match r {
        Err(e) => concat_spec(node) == Err::<(Seq<TensorType>, TensorType, usize), _>(e),
        Ok(BurnNode::Concat(c)) => concat_spec(node) == Ok::<_, ConversionError>((c.inputs@, c.output, c.dim)),
        Ok(_) => false,
    }
}

fn axis_config_of(node: &Node, default: i64) -> (r: Result<usize, ConversionError>)
    ensures
        r == axis_config(*node, default),
{
    if node.inputs.len() == 0 {
        return Err(ConversionError::MissingInput(0));
    }
    let dim = match &node.inputs[0].ty {
        ArgType::Tensor(t) => t.dim,
        _ => return Err(ConversionError::ExpectedTensor),
    };
    proof {
        reveal_strlit("axis");
        assert("axis"@ =~= seq!['a', 'x', 'i', 's']);
    }
    let a: i64 = match node.attr("axis") {
        None => default,
        Some(AttributeValue::Int64(a)) => *a,
        Some(_) => return Err(ConversionError::InvalidAttribute),
    };
    let n: i128 = if a < 0 { a as i128 + dim as i128 } else { a as i128 };
    if 0 <= n && n < dim as i128 {
        Ok(n as usize)
    } else {
        Err(ConversionError::InvalidAxis)
    }
}

fn flatten_config_of(node: &Node) -> (r: Result<(usize, usize), ConversionError>)
    ensures
        r == flatten_config(*node),
{
    if node.inputs.len() > 0 {
        match &node.inputs[0].ty {
            ArgType::Tensor(t) => if t.dim < 2 {
                return Err(ConversionError::InvalidRank);
            },
            _ => {},
        }
    }
    let start = match axis_config_of(node, 1) {
        Ok(s) => s,
        Err(e) => return Err(e),
    };
    let dim = match &node.inputs[0].ty {
        ArgType::Tensor(t) => t.dim,
        _ => return Err(ConversionError::ExpectedTensor),
    };
    Ok((start, dim - 1))
}

/// The element type of a payload.
pub open spec fn data_elem_type(d: TensorData) -> ElementType {
    match d {
        TensorData::Float16(_) => ElementType::Float16,
        TensorData::Float32(_) => ElementType::Float32,
        TensorData::Float64(_) => ElementType::Float64,
        TensorData::Int32(_) => ElementType::Int32,
        TensorData::Int64(_) => ElementType::Int64,
        TensorData::String(_) => ElementType::String,
        TensorData::Bool(_) => ElementType::Bool,
    }
}

/// The parameter payload of a tensor: its data and shape, both required;
/// string and boolean data cannot be serialized.
pub open spec fn param_data(t: Tensor) -> Result<ParamData, ConversionError> {
    match t.data {
        None => Err(ConversionError::MissingTensorData),
        Some(d) => match d {
            TensorData::String(_) | TensorData::Bool(_) => Err(
                ConversionError::UnsupportedParamData(data_elem_type(d)),
            ),
            _ => match t.shape {
                None => Err(ConversionError::MissingTensorShape),
                Some(shape) => Ok(ParamData { value: d, shape }),
            },
        },
    }
}

/// The parameter payload of a state entry.
pub open spec fn state_data(s: State) -> Result<ParamData, ConversionError> {
    match s.ty {
        StateType::Tensor(t) => param_data(t),
    }
}

/// The payload of state entry `i`, which must exist.
pub open spec fn nth_param(states: Seq<State>, i: int, field: StateField) -> Result<
    ParamData,
    ConversionError,
> {
    if 0 <= i < states.len() {
        state_data(states[i])
    } else {
        Err(ConversionError::MissingState(field))
    }
}

/// Weight and optional bias: the queue holds the weight, then the bias when
/// it has exactly two entries.
pub open spec fn weight_bias(states: Seq<State>) -> Result<
    (ParamData, Option<ParamData>),
    ConversionError,
> {
    match nth_param(states, 0, StateField::Weight) {
        Err(e) => Err(e),
        Ok(weight) => if states.len() == 2 {
            match state_data(states[1]) {
                Err(e) => Err(e),
                Ok(bias) => Ok((weight, Some(bias))),
            }
        } else {
            Ok((weight, None))
        },
    }
}

/// Fully connected rule.
pub open spec fn linear_spec(node: Node) -> Result<BurnNode, ConversionError> {
    match io_tensors(node) {
        Err(e) => Err(e),
        Ok((input, output)) => match weight_bias(node.states@) {
            Err(e) => Err(e),
            Ok((weight, bias)) => Ok(
                BurnNode::Linear(
                    LinearNode { name: node.name, input, output, weight, bias, config: node.attrs },
                ),
            ),
        },
    }
}

/// Convolution rule.
pub open spec fn conv2d_spec(node: Node) -> Result<BurnNode, ConversionError> {
    match io_tensors(node) {
        Err(e) => Err(e),
        Ok((input, output)) => match weight_bias(node.states@) {
            Err(e) => Err(e),
            Ok((weight, bias)) => Ok(
                BurnNode::Conv2d(
                    Conv2dNode { name: node.name, input, output, weight, bias, config: node.attrs },
                ),
            ),
        },
    }
}

/// Batch normalization rule: channel axis `rank - 2`; the queue holds gamma,
/// beta, running mean and running variance, in that order.
pub open spec fn batch_norm_spec(node: Node) -> Result<BurnNode, ConversionError> {
    match io_tensors(node) {
        Err(e) => Err(e),
        Ok((input, output)) => if input.dim < 2 {
            Err(ConversionError::InvalidRank)
        } else {
            let st = node.states@;
            match nth_param(st, 0, StateField::Gamma) {
                Err(e) => Err(e),
                Ok(gamma) => match nth_param(st, 1, StateField::Beta) {
                    Err(e) => Err(e),
                    Ok(beta) => match nth_param(st, 2, StateField::RunningMean) {
                        Err(e) => Err(e),
                        Ok(running_mean) => match nth_param(st, 3, StateField::RunningVar) {
                            Err(e) => Err(e),
                            Ok(running_var) => Ok(
                                BurnNode::BatchNorm(
                                    BatchNormNode {
                                        dim: (input.dim - 2) as usize,
                                        name: node.name,
                                        input,
                                        output,
                                        gamma,
                                        beta,
                                        running_mean,
                                        running_var,
                                        config: node.attrs,
                                    },
                                ),
                            ),
                        },
                    },
                },
            }
        },
    }
}

/// The target shape held by an integer payload, each value cast to `usize`.
pub open spec fn shape_dims(d: TensorData) -> Option<Seq<usize>> {
    match d {
        TensorData::Int64(v) => Some(v@.map_values(|x: i64| x as usize)),
        TensorData::Int32(v) => Some(v@.map_values(|x: i32| x as usize)),
        _ => None,
    }
}

/// Reshape rule: the first state entry holds the target shape.
pub open spec fn reshape_spec(node: Node) -> Result<(TensorType, TensorType, Seq<usize>), ConversionError> {
    match io_tensors(node) {
        Err(e) => Err(e),
        Ok((input, output)) => match nth_param(node.states@, 0, StateField::Shape) {
            Err(e) => Err(e),
            Ok(p) => match shape_dims(p.value) {
                None => Err(ConversionError::UnsupportedParamData(data_elem_type(p.value))),
                Some(shape) => Ok((input, output, shape)),
            },
        },
    }
}

/// `r` is what the reshape rule gives for `node`.
pub open spec fn reshape_result(node: Node, r: Result<BurnNode, ConversionError>) -> bool {
    match r {
        Err(e) => reshape_spec(node) == Err::<(TensorType, TensorType, Seq<usize>), _>(e),
        Ok(BurnNode::Reshape(n)) => reshape_spec(node) == Ok::<_, ConversionError>((n.input, n.output, n.shape@)),
        Ok(_) => false,
    }
}

/// The value of a zero-rank constant tensor: its first element.
pub open spec fn scalar_constant(t: Tensor) -> Result<ConstantValue, ConversionError> {
    match t.data {
        None => Err(ConversionError::MissingTensorData),
        Some(TensorData::Float32(v)) => if v@.len() > 0 {
            Ok(ConstantValue::Float32(v@[0]))
        } else {
            Err(ConversionError::EmptyConstant)
        },
        Some(TensorData::Float64(v)) => if v@.len() > 0 {
            Ok(ConstantValue::Float64(v@[0]))
        } else {
            Err(ConversionError::EmptyConstant)
        },
        Some(TensorData::Int32(v)) => if v@.len() > 0 {
            Ok(ConstantValue::Int32(v@[0]))
        } else {
            Err(ConversionError::EmptyConstant)
        },
        Some(TensorData::Int64(v)) => if v@.len() > 0 {
            Ok(ConstantValue::Int64(v@[0]))
        } else {
            Err(ConversionError::EmptyConstant)
        },
        Some(TensorData::Bool(v)) => if v@.len() > 0 {
            Ok(ConstantValue::Bool(v@[0]))
        } else {
            Err(ConversionError::EmptyConstant)
        },
        Some(_) => Err(ConversionError::UnsupportedZeroDimConstant(t.elem_type)),
    }
}

/// Whether two optional shapes hold the same dimensions.
pub open spec fn same_shape(a: Option<Vec<usize>>, b: Option<Vec<usize>>) -> bool {
    match (a, b) {
        (None, None) => true,
        (Some(x), Some(y)) => x@ == y@,
        _ => false,
    }
}

/// `r` is the value of the constant tensor `t` of node `name`: a scalar for
/// rank 0, otherwise a float or integer tensor payload.
pub open spec fn tensor_constant_result(name: String, t: Tensor, r: Result<ConstantValue, ConversionError>) -> bool {
    if t.dim == 0 {
        r == scalar_constant(t)
    } else {
        match tensor_kind_of_const(t.elem_type) {
            None => r == Err::<ConstantValue, _>(ConversionError::UnsupportedConstantTensor(t.elem_type)),
            Some(kind) => match param_data(t) {
                Err(e) => r == Err::<ConstantValue, _>(e),
                Ok(d) => match r {
                    Ok(ConstantValue::Tensor(tt, tv)) => tt.name == name && tt.dim == t.dim
                        && tt.kind == kind && same_shape(tt.shape, t.shape) && tv == (
                    if kind == TensorKind::Float {
                        TensorValue::Float(d)
                    } else {
                        TensorValue::Int(d)
                    }),
                    _ => false,
                },
            },
        }
    }
}

/// The tensor kind of a constant tensor: float or integer.
pub open spec fn tensor_kind_of_const(e: ElementType) -> Option<TensorKind> {
    match e {
        ElementType::Float32 | ElementType::Float64 => Some(TensorKind::Float),
        ElementType::Int32 | ElementType::Int64 => Some(TensorKind::Int),
        _ => None,
    }
}

/// `r` is the value that the `value` attribute of `node` gives.
pub open spec fn constant_value_result(node: Node, r: Result<ConstantValue, ConversionError>) -> bool {
    match crate::ir::attr_value(node.attrs@, seq!['v', 'a', 'l', 'u', 'e']) {
        None => r == Err::<ConstantValue, _>(ConversionError::MissingConstantValue),
        Some(AttributeValue::Float32(v)) => r == Ok::<_, ConversionError>(ConstantValue::Float32(v)),
        Some(AttributeValue::Int64(v)) => r == Ok::<_, ConversionError>(ConstantValue::Int64(v)),
        Some(AttributeValue::Tensor(t)) => tensor_constant_result(node.name, t, r),
        Some(_) => r == Err::<ConstantValue, _>(ConversionError::UnsupportedConstantValue),
    }
}

/// `r` is what the constant rule gives for `node`: its output must exist,
/// then its value, then the output's type.
pub open spec fn constant_result(node: Node, r: Result<BurnNode, ConversionError>) -> bool {
    if node.outputs@.len() == 0 {
        r == Err::<BurnNode, _>(ConversionError::MissingOutput)
    } else {
        exists|v: Result<ConstantValue, ConversionError>|
            #![trigger constant_value_result(node, v)]
            constant_value_result(node, v) && match v {
                Err(e) => r == Err::<BurnNode, _>(e),
                Ok(value) => match arg_type(node.outputs@[0]) {
                    Err(e) => r == Err::<BurnNode, _>(e),
                    Ok(output) => r == Ok::<_, ConversionError>(
                        BurnNode::Constant(ConstantNode { name: node.name, value, output }),
                    ),
                },
            }
    }
}

/// Whether the translator has a rule for the operator kind.
pub open spec fn is_supported(t: NodeType) -> bool {
    match t {
        NodeType::Add | NodeType::Sub | NodeType::Mul | NodeType::Div | NodeType::Equal
        | NodeType::Conv2d | NodeType::MaxPool2d | NodeType::MatMul | NodeType::Linear
        | NodeType::BatchNormalization | NodeType::Relu | NodeType::Flatten
        | NodeType::LogSoftmax | NodeType::Constant | NodeType::Reshape | NodeType::Sigmoid
        | NodeType::Transpose | NodeType::Concat | NodeType::Cast | NodeType::Dropout
        | NodeType::GlobalAveragePool => true,
        _ => false,
    }
}

/// `r` is what translating `node` gives: the rule of its operator kind, or
/// the unsupported-operator failure.
pub open spec fn converts_to(node: Node, r: Result<BurnNode, ConversionError>) -> bool {
    match node.node_type {
        NodeType::Add => r == binary_spec(node, BinaryType::Add),
        NodeType::Sub => r == binary_spec(node, BinaryType::Sub),
        NodeType::Mul => r == binary_spec(node, BinaryType::Mul),
        NodeType::Div => r == binary_spec(node, BinaryType::Div),
        NodeType::Equal => r == binary_spec(node, BinaryType::Equal),
        NodeType::Conv2d => r == conv2d_spec(node),
        NodeType::MaxPool2d => r == max_pool2d_spec(node),
        NodeType::MatMul => r == matmul_spec(node),
        NodeType::Linear => r == linear_spec(node),
        NodeType::BatchNormalization => r == batch_norm_spec(node),
        NodeType::Relu => r == unary_spec(node, UnaryNodeKind::Relu),
        NodeType::Flatten => r == flatten_spec(node),
        NodeType::LogSoftmax => r == log_softmax_spec(node),
        NodeType::Constant => constant_result(node, r),
        NodeType::Reshape => reshape_result(node, r),
        NodeType::Sigmoid => r == unary_spec(node, UnaryNodeKind::Sigmoid),
        NodeType::Transpose => r == unary_spec(node, UnaryNodeKind::Transpose),
        NodeType::Concat => concat_result(node, r),
        NodeType::Cast => r == unary_spec(node, UnaryNodeKind::Cast),
        NodeType::Dropout => r == dropout_spec(node),
        NodeType::GlobalAveragePool => r == global_avg_pool_spec(node),
        _ => r == Err::<BurnNode, _>(ConversionError::UnsupportedNode(node.node_type)),
    }
}

/// The names of the arguments.
pub open spec fn arg_names(args: Seq<Argument>) -> Seq<String> {
    args.map_values(|a: Argument| a.name)
}

/// `r` is what translating the whole graph gives: every node by its rule, in
/// source order, with the declared input and output names; or the failure of
/// the first node that cannot be translated.
pub open spec fn into_burn_result(g: ONNXGraph, r: Result<BurnGraph, ConversionError>) -> bool {
    match r {
        Ok(b) => b.nodes@.len() == g.nodes@.len() && (forall|i: int|
            0 <= i < g.nodes@.len() ==> #[trigger] converts_to(
                g.nodes@[i],
                Ok::<_, ConversionError>(b.nodes@[i]),
            )) && b.input_names@ == arg_names(g.inputs@) && b.output_names@ == arg_names(
            g.outputs@,
        ),
        Err(e) => exists|i: int|
            0 <= i < g.nodes@.len() && #[trigger] converts_to(g.nodes@[i], Err(e)) && forall|j: int|
                0 <= j < i ==> #[trigger] translates(g.nodes@[j]),
    }
}

/// Whether the node translates successfully.
pub open spec fn translates(node: Node) -> bool {
    exists|n: BurnNode| #[trigger] converts_to(node, Ok::<_, ConversionError>(n))
}

/// A failure on a prefix of the arguments is the failure of the whole.
proof fn lemma_tensor_types_err_prefix(args: Seq<Argument>, n: int)
    requires
        0 <= n <= args.len(),
        tensor_types(args.subrange(0, n)) is Err,
    ensures
        tensor_types(args) == tensor_types(args.subrange(0, n)),
    decreases args.len() - n,
{
    if n < args.len() {
        let s = args.subrange(0, n + 1);
        assert(s.drop_last() =~= args.subrange(0, n));
        lemma_tensor_types_err_prefix(args, n + 1);
    } else {
        assert(args.subrange(0, n) =~= args);
    }
}

impl Tensor {
    /// The payload of the tensor for the record writer.
    pub fn into_data_serialize(self) -> (r: Result<ParamData, ConversionError>)
        ensures
            r == param_data(self),
    {
        let data = match self.data {
            Some(d) => d,
            None => return Err(ConversionError::MissingTensorData),
        };
        match data {
            TensorData::String(_) => return Err(
                ConversionError::UnsupportedParamData(ElementType::String),
            ),
            TensorData::Bool(_) => return Err(ConversionError::UnsupportedParamData(ElementType::Bool)),
            _ => {},
        }
        match self.shape {
            Some(shape) => Ok(ParamData { value: data, shape }),
            None => Err(ConversionError::MissingTensorShape),
        }
    }
}

impl State {
    /// The payload of the state entry for the record writer.
    pub fn into_data_serialize(self) -> (r: Result<ParamData, ConversionError>)
        ensures
            r == state_data(self),
    {
        match self.ty {
            StateType::Tensor(tensor) => tensor.into_data_serialize(),
        }
    }
}

/// Takes the next entry off the parameter queue and converts it.
fn extract_next_data_serialize(states: &mut Vec<State>) -> (r: Option<
    Result<ParamData, ConversionError>,
>)
    ensures
        old(states)@.len() == 0 ==> r is None && final(states)@ == old(states)@,
        old(states)@.len() > 0 ==> r == Some(state_data(old(states)@[0])) && final(states)@
            == old(states)@.drop_first(),
{
    if states.len() == 0 {
        return None;
    }
    let s = states.remove(0);
    assert(old(states)@.remove(0) =~= old(states)@.drop_first());
    Some(s.into_data_serialize())
}

/// Takes the next entry, which must exist, off the parameter queue.
fn take_param(states: &mut Vec<State>, field: StateField) -> (r: Result<ParamData, ConversionError>)
    ensures
        r == nth_param(old(states)@, 0, field),
        final(states)@ == if old(states)@.len() > 0 {
            old(states)@.drop_first()
        } else {
            old(states)@
        },
{
    match extract_next_data_serialize(states) {
        Some(r) => r,
        None => Err(ConversionError::MissingState(field)),
    }
}

fn weight_bias_of(states: Vec<State>) -> (r: Result<(ParamData, Option<ParamData>), ConversionError>)
    ensures
        r == weight_bias(states@),
{
    let mut states = states;
    let has_bias = states.len() == 2;
    let ghost st = states@;
    let weight = match take_param(&mut states, StateField::Weight) {
        Ok(w) => w,
        Err(e) => return Err(e),
    };
    if has_bias {
        assert(states@[0] == st[1]);
        match take_param(&mut states, StateField::Bias) {
            Ok(b) => Ok((weight, Some(b))),
            Err(e) => Err(e),
        }
    } else {
        Ok((weight, None))
    }
}

fn copy_dims(v: &Vec<usize>) -> (r: Vec<usize>)
    ensures
        r@ == v@,
{
    let mut r: Vec<usize> = Vec::new();
    let mut i: usize = 0;
    while i < v.len()
        invariant
            i <= v@.len(),
            r@ =~= v@.subrange(0, i as int),
        decreases v@.len() - i,
    {
        r.push(v[i]);
        i = i + 1;
    }
    assert(v@.subrange(0, v@.len() as int) =~= v@);
    r
}

fn scalar_constant_of(t: Tensor) -> (r: Result<ConstantValue, ConversionError>)
    requires
        t.dim == 0,
    ensures
        r == scalar_constant(t),
{
    match t.data {
        None => Err(ConversionError::MissingTensorData),
        Some(TensorData::Float32(v)) => if v.len() > 0 {
            Ok(ConstantValue::Float32(v[0]))
        } else {
            Err(ConversionError::EmptyConstant)
        },
        Some(TensorData::Float64(v)) => if v.len() > 0 {
            Ok(ConstantValue::Float64(v[0]))
        } else {
            Err(ConversionError::EmptyConstant)
        },
        Some(TensorData::Int32(v)) => if v.len() > 0 {
            Ok(ConstantValue::Int32(v[0]))
        } else {
            Err(ConversionError::EmptyConstant)
        },
        Some(TensorData::Int64(v)) => if v.len() > 0 {
            Ok(ConstantValue::Int64(v[0]))
        } else {
            Err(ConversionError::EmptyConstant)
        },
        Some(TensorData::Bool(v)) => if v.len() > 0 {
            Ok(ConstantValue::Bool(v[0]))
        } else {
            Err(ConversionError::EmptyConstant)
        },
        Some(_) => Err(ConversionError::UnsupportedZeroDimConstant(t.elem_type)),
    }
}

fn tensor_constant(name: String, t: Tensor) -> (r: Result<ConstantValue, ConversionError>)
    ensures
        tensor_constant_result(name, t, r),
{
    if t.dim == 0 {
        return scalar_constant_of(t);
    }
    let kind = match t.elem_type {
        ElementType::Float32 | ElementType::Float64 => TensorKind::Float,
        ElementType::Int32 | ElementType::Int64 => TensorKind::Int,
        _ => return Err(ConversionError::UnsupportedConstantTensor(t.elem_type)),
    };
    let dim = t.dim;
    let shape = match &t.shape {
        Some(s) => Some(copy_dims(s)),
        None => None,
    };
    let ghost t0 = t;
    let d = match t.into_data_serialize() {
        Ok(d) => d,
        Err(e) => return Err(e),
    };
    let value = match kind {
        TensorKind::Float => TensorValue::Float(d),
        _ => TensorValue::Int(d),
    };
    let tt = TensorType { name, dim, kind, shape };
    assert(same_shape(tt.shape, t0.shape));
    Ok(ConstantValue::Tensor(tt, value))
}

/// Takes the first attribute called `name` out of the list.
fn take_attr(attrs: &mut Vec<crate::ir::Attribute>, name: &str) -> (r: Option<AttributeValue>)
    ensures
        r == crate::ir::attr_value(old(attrs)@, name@),
{
    let mut i: usize = 0;
    assert(old(attrs)@.skip(0) =~= old(attrs)@);
    while i < attrs.len()
        invariant
            i <= attrs@.len(),
            attrs@ == old(attrs)@,
            crate::ir::attr_value(attrs@, name@) == crate::ir::attr_value(attrs@.skip(i as int), name@),
        decreases attrs@.len() - i,
    {
        assert(attrs@.skip(i as int)[0] == attrs@[i as int]);
        assert(attrs@.skip(i as int).drop_first() =~= attrs@.skip(i + 1));
        if crate::text::str_eq(attrs[i].name.as_str(), name) {
            let a = attrs.remove(i);
            return Some(a.value);
        }
        i = i + 1;
    }
    None
}

fn names_of(args: &Vec<Argument>) -> (r: Vec<String>)
    ensures
        r@ == arg_names(args@),
{
    let mut r: Vec<String> = Vec::new();
    let mut i: usize = 0;
    while i < args.len()
        invariant
            i <= args@.len(),
            r@ =~= arg_names(args@.subrange(0, i as int)),
        decreases args@.len() - i,
    {
        r.push(args[i].name.clone());
        i = i + 1;
    }
    assert(args@.subrange(0, args@.len() as int) =~= args@);
    r
}

impl ONNXGraph {
    /// Translates one node by the rule of its operator kind.
    pub fn convert_node(node: Node) -> (r: Result<BurnNode, ConversionError>)
        ensures
            converts_to(node, r),
    {
        match node.node_type {
            NodeType::Add => Self::add_conversion(node),
            NodeType::Sub => Self::sub_conversion(node),
            NodeType::Mul => Self::mul_conversion(node),
            NodeType::Div => Self::div_conversion(node),
            NodeType::Equal => Self::equal_conversion(node),
            NodeType::Conv2d => Self::conv2d_conversion(node),
            NodeType::MaxPool2d => Self::max_pool2d_conversion(node),
            NodeType::MatMul => Self::matmul_conversion(node),
            NodeType::Linear => Self::linear_conversion(node),
            NodeType::BatchNormalization => Self::batch_norm_conversion(node),
            NodeType::Relu => Self::relu_conversion(node),
            NodeType::Flatten => Self::flatten_conversion(node),
            NodeType::LogSoftmax => Self::log_softmax_conversion(node),
            NodeType::Constant => Self::constant_conversion(node),
            NodeType::Reshape => Self::reshape_conversion(node),
            NodeType::Sigmoid => Self::sigmoid_conversion(node),
            NodeType::Transpose => Self::transpose_conversion(node),
            NodeType::Concat => Self::concat_conversion(node),
            NodeType::Cast => Self::cast_conversion(node),
            NodeType::Dropout => Self::dropout_conversion(node),
            NodeType::GlobalAveragePool => Self::global_avg_pool_conversion(node),
            _ => Err(ConversionError::UnsupportedNode(node.node_type)),
        }
    }

    /// Translates the graph: every node in source order, then the declared
    /// input and output names. Stops at the first node that cannot be
    /// translated.
    pub fn into_burn(self) -> (r: Result<BurnGraph, ConversionError>)
        ensures
            into_burn_result(self, r),
    {
        let ghost g = self;
        let total = self.nodes.len();
        let input_names = names_of(&self.inputs);
        let output_names = names_of(&self.outputs);
        let mut graph = BurnGraph::new();
        let mut nodes = self.nodes;
        let mut rest: Vec<Node> = Vec::new();
        // Source order is kept by walking the reversed list from its end.
        while nodes.len() > 0
            invariant
                rest@ =~= g.nodes@.subrange(nodes@.len() as int, g.nodes@.len() as int).reverse(),
                nodes@ == g.nodes@.subrange(0, nodes@.len() as int),
                nodes@.len() <= g.nodes@.len(),
            decreases nodes@.len(),
        {
            let n = nodes.pop().unwrap();
            rest.push(n);
        }
        assert(g.nodes@.subrange(0, g.nodes@.len() as int) =~= g.nodes@);
        let mut i: usize = 0;
        while rest.len() > 0
            invariant
                i + rest@.len() == g.nodes@.len(),
                total == g.nodes@.len(),
                g == self,
                rest@ =~= g.nodes@.subrange(i as int, g.nodes@.len() as int).reverse(),
                graph.nodes@.len() == i,
                graph.input_names@.len() == 0,
                graph.output_names@.len() == 0,
                forall|j: int|
                    0 <= j < i ==> #[trigger] converts_to(
                        g.nodes@[j],
                        Ok::<_, ConversionError>(graph.nodes@[j]),
                    ),
            decreases rest@.len(),
        {
            let node = rest.pop().unwrap();
            assert(node == g.nodes@[i as int]);
            match Self::convert_node(node) {
                Ok(t) => graph.register(t),
                Err(e) => {
                    assert forall|j: int| 0 <= j < i implies #[trigger] translates(g.nodes@[j]) by {
                        assert(converts_to(g.nodes@[j], Ok::<_, ConversionError>(graph.nodes@[j])));
                    }
                    assert(converts_to(g.nodes@[i as int], Err(e)));
                    assert(into_burn_result(g, Err::<BurnGraph, ConversionError>(e)));
                    return Err(e);
                },
            }
            i = i + 1;
        }
        graph.register_input_output(input_names, output_names);
        Ok(graph)
    }

    fn binary_conversion(node: Node, op: BinaryType) -> (r: Result<BurnNode, ConversionError>)
        ensures
            r == binary_spec(node, op),
    {
        let lhs = match input_type_of(&node, 0) {
            Ok(t) => t,
            Err(e) => return Err(e),
        };
        let rhs = match input_type_of(&node, 1) {
            Ok(t) => t,
            Err(e) => return Err(e),
        };
        let output = match output_type_of(&node) {
            Ok(t) => t,
            Err(e) => return Err(e),
        };
        Ok(BurnNode::Binary(BinaryNode { lhs, rhs, output, binary_type: op }))
    }

    fn unary_conversion(node: Node, kind: UnaryNodeKind) -> (r: Result<BurnNode, ConversionError>)
        ensures
            r == unary_spec(node, kind),
    {
        let input = match input_type_of(&node, 0) {
            Ok(t) => t,
            Err(e) => return Err(e),
        };
        let output = match output_type_of(&node) {
            Ok(t) => t,
            Err(e) => return Err(e),
        };
        Ok(BurnNode::Unary(UnaryNode { input, output, kind }))
    }

    /// Translates an `Add` node.
    pub fn add_conversion(node: Node) -> (r: Result<BurnNode, ConversionError>)
        ensures
            r == binary_spec(node, BinaryType::Add),
    {
        Self::binary_conversion(node, BinaryType::Add)
    }

    /// Translates a `Sub` node.
    pub fn sub_conversion(node: Node) -> (r: Result<BurnNode, ConversionError>)
        ensures
            r == binary_spec(node, BinaryType::Sub),
    {
        Self::binary_conversion(node, BinaryType::Sub)
    }

    /// Translates a `Mul` node.
    pub fn mul_conversion(node: Node) -> (r: Result<BurnNode, ConversionError>)
        ensures
            r == binary_spec(node, BinaryType::Mul),
    {
        Self::binary_conversion(node, BinaryType::Mul)
    }

    /// Translates a `Div` node.
    pub fn div_conversion(node: Node) -> (r: Result<BurnNode, ConversionError>)
        ensures
            r == binary_spec(node, BinaryType::Div),
    {
        Self::binary_conversion(node, BinaryType::Div)
    }

    /// Translates an `Equal` node.
    pub fn equal_conversion(node: Node) -> (r: Result<BurnNode, ConversionError>)
        ensures
            r == binary_spec(node, BinaryType::Equal),
    {
        Self::binary_conversion(node, BinaryType::Equal)
    }

    /// Translates a `MatMul` node; both operands must be tensors.
    pub fn matmul_conversion(node: Node) -> (r: Result<BurnNode, ConversionError>)
        ensures
            r == matmul_spec(node),
    {
        let lhs = match input_tensor_of(&node, 0) {
            Ok(t) => t,
            Err(e) => return Err(e),
        };
        let rhs = match input_tensor_of(&node, 1) {
            Ok(t) => t,
            Err(e) => return Err(e),
        };
        let output = match output_tensor_of(&node) {
            Ok(t) => t,
            Err(e) => return Err(e),
        };
        Ok(BurnNode::Matmul(MatmulNode { lhs, rhs, output }))
    }

    /// Translates a `Relu` node.
    pub fn relu_conversion(node: Node) -> (r: Result<BurnNode, ConversionError>)
        ensures
            r == unary_spec(node, UnaryNodeKind::Relu),
    {
        Self::unary_conversion(node, UnaryNodeKind::Relu)
    }

    /// Translates a `Transpose` node.
    pub fn transpose_conversion(node: Node) -> (r: Result<BurnNode, ConversionError>)
        ensures
            r == unary_spec(node, UnaryNodeKind::Transpose),
    {
        Self::unary_conversion(node, UnaryNodeKind::Transpose)
    }

    /// Translates a `Cast` node.
    pub fn cast_conversion(node: Node) -> (r: Result<BurnNode, ConversionError>)
        ensures
            r == unary_spec(node, UnaryNodeKind::Cast),
    {
        Self::unary_conversion(node, UnaryNodeKind::Cast)
    }

    /// Translates a `Sigmoid` node.
    pub fn sigmoid_conversion(node: Node) -> (r: Result<BurnNode, ConversionError>)
        ensures
            r == unary_spec(node, UnaryNodeKind::Sigmoid),
    {
        Self::unary_conversion(node, UnaryNodeKind::Sigmoid)
    }

    /// Translates a `Flatten` node.
    pub fn flatten_conversion(node: Node) -> (r: Result<BurnNode, ConversionError>)
        ensures
            r == flatten_spec(node),
    {
        let input = match input_type_of(&node, 0) {
            Ok(t) => t,
            Err(e) => return Err(e),
        };
        let output = match output_type_of(&node) {
            Ok(t) => t,
            Err(e) => return Err(e),
        };
        let (start_dim, end_dim) = match flatten_config_of(&node) {
            Ok(c) => c,
            Err(e) => return Err(e),
        };
        Ok(BurnNode::Unary(UnaryNode { input, output, kind: UnaryNodeKind::Flatten { start_dim, end_dim } }))
    }

    /// Translates a `LogSoftmax` node.
    pub fn log_softmax_conversion(node: Node) -> (r: Result<BurnNode, ConversionError>)
        ensures
            r == log_softmax_spec(node),
    {
        let input = match input_type_of(&node, 0) {
            Ok(t) => t,
            Err(e) => return Err(e),
        };
        let output = match output_type_of(&node) {
            Ok(t) => t,
            Err(e) => return Err(e),
        };
        let dim = match axis_config_of(&node, -1) {
            Ok(d) => d,
            Err(e) => return Err(e),
        };
        Ok(BurnNode::Unary(UnaryNode { input, output, kind: UnaryNodeKind::LogSoftmax { dim } }))
    }

    /// Translates a `Concat` node.
    pub fn concat_conversion(node: Node) -> (r: Result<BurnNode, ConversionError>)
        ensures
            concat_result(node, r),
    {
        let mut inputs: Vec<TensorType> = Vec::new();
        let mut i: usize = 0;
        while i < node.inputs.len()
            invariant
                i <= node.inputs@.len(),
                tensor_types(node.inputs@.subrange(0, i as int)) == Ok::<_, ConversionError>(inputs@),
            decreases node.inputs@.len() - i,
        {
            proof {
                let s = node.inputs@.subrange(0, i + 1);
                assert(s.drop_last() =~= node.inputs@.subrange(0, i as int));
                assert(s.last() == node.inputs@[i as int]);
            }
            match node.inputs[i].to_tensor_type() {
                Ok(t) => inputs.push(t),
                Err(e) => {
                    proof {
                        lemma_tensor_types_err_prefix(node.inputs@, (i + 1) as int);
                    }
                    return Err(e);
                },
            }
            i = i + 1;
        }
        assert(node.inputs@.subrange(0, i as int) =~= node.inputs@);
        let output = match output_tensor_of(&node) {
            Ok(t) => t,
            Err(e) => return Err(e),
        };
        let dim = match axis_config_of(&node, 1) {
            Ok(d) => d,
            Err(e) => return Err(e),
        };
        Ok(BurnNode::Concat(ConcatNode { inputs, output, dim }))
    }

    /// Translates a `Linear` node: weight, then bias where the queue holds two
    /// entries.
    pub fn linear_conversion(node: Node) -> (r: Result<BurnNode, ConversionError>)
        ensures
            r == linear_spec(node),
    {
        let (input, output) = match io_tensors_of(&node) {
            Ok(io) => io,
            Err(e) => return Err(e),
        };
        let (weight, bias) = match weight_bias_of(node.states) {
            Ok(wb) => wb,
            Err(e) => return Err(e),
        };
        Ok(BurnNode::Linear(LinearNode { name: node.name, input, output, weight, bias, config: node.attrs }))
    }

    /// Translates a `Conv2d` node: weight, then bias where the queue holds two
    /// entries.
    pub fn conv2d_conversion(node: Node) -> (r: Result<BurnNode, ConversionError>)
        ensures
            r == conv2d_spec(node),
    {
        let (input, output) = match io_tensors_of(&node) {
            Ok(io) => io,
            Err(e) => return Err(e),
        };
        let (weight, bias) = match weight_bias_of(node.states) {
            Ok(wb) => wb,
            Err(e) => return Err(e),
        };
        Ok(BurnNode::Conv2d(Conv2dNode { name: node.name, input, output, weight, bias, config: node.attrs }))
    }

    /// Translates a `BatchNormalization` node.
    pub fn batch_norm_conversion(node: Node) -> (r: Result<BurnNode, ConversionError>)
        ensures
            r == batch_norm_spec(node),
    {
        let (input, output) = match io_tensors_of(&node) {
            Ok(io) => io,
            Err(e) => return Err(e),
        };
        if input.dim < 2 {
            return Err(ConversionError::InvalidRank);
        }
        let dim = input.dim - 2;
        let mut states = node.states;
        let ghost st = states@;
        let gamma = match take_param(&mut states, StateField::Gamma) {
            Ok(p) => p,
            Err(e) => return Err(e),
        };
        assert(states@ =~= st.subrange(1, st.len() as int));
        let beta = match take_param(&mut states, StateField::Beta) {
            Ok(p) => p,
            Err(e) => return Err(e),
        };
        assert(states@ =~= st.subrange(2, st.len() as int));
        let running_mean = match take_param(&mut states, StateField::RunningMean) {
            Ok(p) => p,
            Err(e) => return Err(e),
        };
        assert(states@ =~= st.subrange(3, st.len() as int));
        let running_var = match take_param(&mut states, StateField::RunningVar) {
            Ok(p) => p,
            Err(e) => return Err(e),
        };
        Ok(
            BurnNode::BatchNorm(
                BatchNormNode {
                    dim,
                    name: node.name,
                    input,
                    output,
                    gamma,
                    beta,
                    running_mean,
                    running_var,
                    config: node.attrs,
                },
            ),
        )
    }

    /// Translates a `Reshape` node; the first state entry holds the target
    /// shape.
    pub fn reshape_conversion(node: Node) -> (r: Result<BurnNode, ConversionError>)
        ensures
            reshape_result(node, r),
    {
        let (input, output) = match io_tensors_of(&node) {
            Ok(io) => io,
            Err(e) => return Err(e),
        };
        let mut states = node.states;
        let p = match take_param(&mut states, StateField::Shape) {
            Ok(p) => p,
            Err(e) => return Err(e),
        };
        let mut shape: Vec<usize> = Vec::new();
        match &p.value {
            TensorData::Int64(v) => {
                let mut i: usize = 0;
                while i < v.len()
                    invariant
                        i <= v@.len(),
                        shape@ =~= v@.subrange(0, i as int).map_values(|x: i64| x as usize),
                    decreases v@.len() - i,
                {
                    shape.push(v[i] as usize);
                    i = i + 1;
                }
                assert(v@.subrange(0, v@.len() as int) =~= v@);
            },
            TensorData::Int32(v) => {
                let mut i: usize = 0;
                while i < v.len()
                    invariant
                        i <= v@.len(),
                        shape@ =~= v@.subrange(0, i as int).map_values(|x: i32| x as usize),
                    decreases v@.len() - i,
                {
                    shape.push(v[i] as usize);
                    i = i + 1;
                }
                assert(v@.subrange(0, v@.len() as int) =~= v@);
            },
            _ => return Err(ConversionError::UnsupportedParamData(Self::elem_type_of(&p.value))),
        }
        Ok(BurnNode::Reshape(ReshapeNode { input, output, shape }))
    }

    fn elem_type_of(d: &TensorData) -> (r: ElementType)
        ensures
            r == data_elem_type(*d),
    {
        match d {
            TensorData::Float16(_) => ElementType::Float16,
            TensorData::Float32(_) => ElementType::Float32,
            TensorData::Float64(_) => ElementType::Float64,
            TensorData::Int32(_) => ElementType::Int32,
            TensorData::Int64(_) => ElementType::Int64,
            TensorData::String(_) => ElementType::String,
            TensorData::Bool(_) => ElementType::Bool,
        }
    }

    /// Translates a `Constant` node from its `value` attribute.
    pub fn constant_conversion(node: Node) -> (r: Result<BurnNode, ConversionError>)
        ensures
            constant_result(node, r),
    {
        if node.outputs.len() == 0 {
            return Err(ConversionError::MissingOutput);
        }
        let ghost n0 = node;
        let mut attrs = node.attrs;
        proof {
            reveal_strlit("value");
            assert("value"@ =~= seq!['v', 'a', 'l', 'u', 'e']);
        }
        let v: Result<ConstantValue, ConversionError> = match take_attr(&mut attrs, "value") {
            None => Err(ConversionError::MissingConstantValue),
            Some(AttributeValue::Float32(v)) => Ok(ConstantValue::Float32(v)),
            Some(AttributeValue::Int64(v)) => Ok(ConstantValue::Int64(v)),
            Some(AttributeValue::Tensor(t)) => tensor_constant(node.name.clone(), t),
            Some(_) => Err(ConversionError::UnsupportedConstantValue),
        };
        assert(constant_value_result(n0, v));
        let value = match v {
            Ok(value) => value,
            Err(e) => return Err(e),
        };
        let output = match node.outputs[0].to_type() {
            Ok(t) => t,
            Err(e) => return Err(e),
        };
        Ok(BurnNode::Constant(ConstantNode { name: node.name, value, output }))
    }

    /// Translates a `GlobalAveragePool` node.
    pub fn global_avg_pool_conversion(node: Node) -> (r: Result<BurnNode, ConversionError>)
        ensures
            r == global_avg_pool_spec(node),
    {
        let (input, output) = match io_tensors_of(&node) {
            Ok(io) => io,
            Err(e) => return Err(e),
        };
        Ok(BurnNode::GlobalAvgPool(GlobalAvgPoolNode { name: node.name, input, output }))
    }

    /// Translates a `MaxPool2d` node.
    pub fn max_pool2d_conversion(node: Node) -> (r: Result<BurnNode, ConversionError>)
        ensures
            r == max_pool2d_spec(node),
    {
        let (input, output) = match io_tensors_of(&node) {
            Ok(io) => io,
            Err(e) => return Err(e),
        };
        Ok(BurnNode::MaxPool2d(MaxPool2dNode { name: node.name, input, output, config: node.attrs }))
    }

    /// Translates a `Dropout` node.
    pub fn dropout_conversion(node: Node) -> (r: Result<BurnNode, ConversionError>)
        ensures
            r == dropout_spec(node),
    {
        let (input, output) = match io_tensors_of(&node) {
            Ok(io) => io,
            Err(e) => return Err(e),
        };
        Ok(BurnNode::Dropout(DropoutNode { name: node.name, input, output, config: node.attrs }))
    }
}


/// Equal constant values; a tensor constant's static shape is compared by
/// its dimensions.
pub open spec fn constant_eq(a: ConstantValue, b: ConstantValue) -> bool {
    match (a, b) {
        (ConstantValue::Tensor(ta, va), ConstantValue::Tensor(tb, vb)) => ta.name == tb.name
            && ta.dim == tb.dim && ta.kind == tb.kind && same_shape(ta.shape, tb.shape) && va == vb,
        _ => a == b,
    }
}

/// Equal target nodes; lists held in vectors are compared by their
/// elements.
pub open spec fn node_eq(a: BurnNode, b: BurnNode) -> bool {
    match (a, b) {
        (BurnNode::Constant(x), BurnNode::Constant(y)) => x.name == y.name && x.output == y.output
            && constant_eq(x.value, y.value),
        (BurnNode::Concat(x), BurnNode::Concat(y)) => x.inputs@ == y.inputs@ && x.output == y.output
            && x.dim == y.dim,
        (BurnNode::Reshape(x), BurnNode::Reshape(y)) => x.input == y.input && x.output == y.output
            && x.shape@ == y.shape@,
        _ => a == b,
    }
}

/// The operator kinds whose rules read nothing but their arguments and
/// attributes as they stand.
pub open spec fn is_plain_kind(t: NodeType) -> bool {
    match t {
        NodeType::Add | NodeType::Sub | NodeType::Mul | NodeType::Div | NodeType::Equal
        | NodeType::Relu | NodeType::Sigmoid | NodeType::Transpose | NodeType::Cast
        | NodeType::MatMul | NodeType::MaxPool2d | NodeType::Dropout
        | NodeType::GlobalAveragePool => true,
        _ => false,
    }
}

/// Whether every argument is a tensor of rank one or more.
pub open spec fn all_tensors(args: Seq<Argument>) -> bool {
    forall|i: int| 0 <= i < args.len() ==> ((#[trigger] args[i]).ty matches ArgType::Tensor(t) && t.dim > 0)
}

/// Converting arguments to tensor types fails only on a non-tensor argument.
proof fn lemma_tensor_types_error(args: Seq<Argument>)
    ensures
        tensor_types(args) is Err ==> tensor_types(args) == Err::<Seq<TensorType>, _>(
            ConversionError::ExpectedTensor,
        ),
    decreases args.len(),
{
    if args.len() > 0 {
        lemma_tensor_types_error(args.drop_last());
    }
}

/// Every supported operator kind is translated by its own rule, never
/// refused as unsupported, and a translated node's output is named as the
/// source node's first output. Binary, unary, matrix-product, pooling and
/// dropout nodes whose arguments are tensors of rank one or more, two inputs
/// and one output, always translate.
pub proof fn lemma_supported_keeps_output_name(node: Node, r: Result<BurnNode, ConversionError>)
    requires
        is_supported(node.node_type),
        converts_to(node, r),
    ensures
        r != Err::<BurnNode, _>(ConversionError::UnsupportedNode(node.node_type)),
        r matches Ok(n) ==> node.outputs@.len() > 0 && n.output_name() == node.outputs@[0].name@,
        is_plain_kind(node.node_type) && node.inputs@.len() == 2 && node.outputs@.len() == 1
            && all_tensors(node.inputs@) && all_tensors(node.outputs@) ==> r is Ok,
{
    if node.node_type == NodeType::Constant {
        if node.outputs@.len() > 0 {
            let v = choose|v: Result<ConstantValue, ConversionError>|
                #![trigger constant_value_result(node, v)]
                constant_value_result(node, v) && match v {
                    Err(e) => r == Err::<BurnNode, _>(e),
                    Ok(value) => match arg_type(node.outputs@[0]) {
                        Err(e) => r == Err::<BurnNode, _>(e),
                        Ok(output) => r == Ok::<_, ConversionError>(
                            BurnNode::Constant(ConstantNode { name: node.name, value, output }),
                        ),
                    },
                };
            let a = crate::ir::attr_value(node.attrs@, seq!['v', 'a', 'l', 'u', 'e']);
            if let Some(AttributeValue::Tensor(t)) = a {
                if t.dim == 0 {
                    assert(v == scalar_constant(t));
                }
            }
        }
    }
    if node.node_type == NodeType::Concat {
        lemma_tensor_types_error(node.inputs@);
    }
    if node.inputs@.len() == 2 && node.outputs@.len() == 1 && all_tensors(node.inputs@)
        && all_tensors(node.outputs@) {
        assert(node.inputs@[0].ty is Tensor);
        assert(node.inputs@[1].ty is Tensor);
        assert(node.outputs@[0].ty is Tensor);
    }
}

/// A node whose operator kind is outside the supported set is refused, and a
/// graph that holds one translates to no graph at all.
pub proof fn lemma_unsupported_is_fatal(g: ONNXGraph, i: int, r: Result<BurnGraph, ConversionError>)
    requires
        0 <= i < g.nodes@.len(),
        !is_supported(g.nodes@[i].node_type),
        into_burn_result(g, r),
    ensures
        converts_to(g.nodes@[i], Err(ConversionError::UnsupportedNode(g.nodes@[i].node_type))),
        forall|n: BurnNode| !converts_to(g.nodes@[i], Ok::<_, ConversionError>(n)),
        r is Err,
{
    if r is Ok {
        assert(converts_to(g.nodes@[i], Ok::<_, ConversionError>(r->Ok_0.nodes@[i])));
    }
}

/// Linear and convolution nodes take a bias exactly when the parameter queue
/// holds two entries; a batch normalization with fewer than four entries is
/// refused, naming the first missing statistic.
pub proof fn lemma_parameter_queue(node: Node, r: Result<BurnNode, ConversionError>)
    requires
        converts_to(node, r),
    ensures
        node.node_type == NodeType::Linear ==> (r matches Ok(BurnNode::Linear(l)) ==> (l.bias is Some
            <==> node.states@.len() == 2)),
        node.node_type == NodeType::Conv2d ==> (r matches Ok(BurnNode::Conv2d(c)) ==> (c.bias is Some
            <==> node.states@.len() == 2)),
        node.node_type == NodeType::BatchNormalization && node.states@.len() < 4 ==> r is Err,
        node.node_type == NodeType::BatchNormalization && io_tensors(node) is Ok
            && io_tensors(node)->Ok_0.0.dim >= 2 && node.states@.len() == 3 && (forall|k: int|
            0 <= k < 3 ==> #[trigger] state_data(node.states@[k]) is Ok) ==> r == Err::<
            BurnNode,
            _,
        >(ConversionError::MissingState(StateField::RunningVar)),
{
}

/// Translation is a function of the source graph: two translations of one
/// graph agree on success, on the failure, on the call signature, and node
/// by node on the whole target node.
pub proof fn lemma_translation_deterministic(
    g: ONNXGraph,
    r1: Result<BurnGraph, ConversionError>,
    r2: Result<BurnGraph, ConversionError>,
)
    requires
        into_burn_result(g, r1),
        into_burn_result(g, r2),
    ensures
        r1 is Ok <==> r2 is Ok,
        r1 is Err ==> r1 == r2,
        r1 is Ok ==> r1->Ok_0.input_names@ == r2->Ok_0.input_names@ && r1->Ok_0.output_names@
            == r2->Ok_0.output_names@ && r1->Ok_0.nodes@.len() == r2->Ok_0.nodes@.len() && forall|
            i: int,
        |
            0 <= i < r1->Ok_0.nodes@.len() ==> (#[trigger] r1->Ok_0.nodes@[i]).output_name()
                == r2->Ok_0.nodes@[i].output_name() && node_eq(r1->Ok_0.nodes@[i], r2->Ok_0.nodes@[i]),
{
    if r1 is Ok && r2 is Err {
        let i = choose|i: int|
            0 <= i < g.nodes@.len() && #[trigger] converts_to(g.nodes@[i], Err(r2->Err_0)) && forall|j: int|
                0 <= j < i ==> #[trigger] translates(g.nodes@[j]);
        lemma_converts_functional(g.nodes@[i], Ok(r1->Ok_0.nodes@[i]), Err(r2->Err_0));
    } else if r1 is Err && r2 is Ok {
        let i = choose|i: int|
            0 <= i < g.nodes@.len() && #[trigger] converts_to(g.nodes@[i], Err(r1->Err_0)) && forall|j: int|
                0 <= j < i ==> #[trigger] translates(g.nodes@[j]);
        lemma_converts_functional(g.nodes@[i], Ok(r2->Ok_0.nodes@[i]), Err(r1->Err_0));
    } else if r1 is Err && r2 is Err {
        let i1 = choose|i: int|
            0 <= i < g.nodes@.len() && #[trigger] converts_to(g.nodes@[i], Err(r1->Err_0)) && forall|j: int|
                0 <= j < i ==> #[trigger] translates(g.nodes@[j]);
        let i2 = choose|i: int|
            0 <= i < g.nodes@.len() && #[trigger] converts_to(g.nodes@[i], Err(r2->Err_0)) && forall|j: int|
                0 <= j < i ==> #[trigger] translates(g.nodes@[j]);
        if i1 < i2 {
            assert(translates(g.nodes@[i1]));
            let n = choose|n: BurnNode| #[trigger] converts_to(g.nodes@[i1], Ok::<_, ConversionError>(n));
            lemma_converts_functional(g.nodes@[i1], Ok(n), Err(r1->Err_0));
        } else if i2 < i1 {
            assert(translates(g.nodes@[i2]));
            let n = choose|n: BurnNode| #[trigger] converts_to(g.nodes@[i2], Ok::<_, ConversionError>(n));
            lemma_converts_functional(g.nodes@[i2], Ok(n), Err(r2->Err_0));
        } else {
            lemma_converts_functional(g.nodes@[i1], Err(r1->Err_0), Err(r2->Err_0));
        }
    } else {
        let b1 = r1->Ok_0;
        let b2 = r2->Ok_0;
        assert forall|i: int| 0 <= i < b1.nodes@.len() implies (#[trigger] b1.nodes@[i]).output_name()
            == b2.nodes@[i].output_name() && node_eq(b1.nodes@[i], b2.nodes@[i]) by {
            lemma_converts_functional(g.nodes@[i], Ok(b1.nodes@[i]), Ok(b2.nodes@[i]));
        }
    }
}

/// Translating one node has one outcome: success or one particular failure,
/// and a success names its output after the node's first output.
proof fn lemma_converts_functional(
    node: Node,
    a: Result<BurnNode, ConversionError>,
    b: Result<BurnNode, ConversionError>,
)
    requires
        converts_to(node, a),
        converts_to(node, b),
    ensures
        a is Ok <==> b is Ok,
        a is Err ==> a == b,
        a is Ok ==> a->Ok_0.output_name() == b->Ok_0.output_name(),
        a is Ok ==> node_eq(a->Ok_0, b->Ok_0),
{
    if is_supported(node.node_type) {
        lemma_supported_keeps_output_name(node, a);
        lemma_supported_keeps_output_name(node, b);
    }
    if node.node_type == NodeType::Constant && node.outputs@.len() > 0 {
        let va = choose|v: Result<ConstantValue, ConversionError>|
            #![trigger constant_value_result(node, v)]
            constant_value_result(node, v) && match v {
                Err(e) => a == Err::<BurnNode, _>(e),
                Ok(value) => match arg_type(node.outputs@[0]) {
                    Err(e) => a == Err::<BurnNode, _>(e),
                    Ok(output) => a == Ok::<_, ConversionError>(
                        BurnNode::Constant(ConstantNode { name: node.name, value, output }),
                    ),
                },
            };
        let vb = choose|v: Result<ConstantValue, ConversionError>|
            #![trigger constant_value_result(node, v)]
            constant_value_result(node, v) && match v {
                Err(e) => b == Err::<BurnNode, _>(e),
                Ok(value) => match arg_type(node.outputs@[0]) {
                    Err(e) => b == Err::<BurnNode, _>(e),
                    Ok(output) => b == Ok::<_, ConversionError>(
                        BurnNode::Constant(ConstantNode { name: node.name, value, output }),
                    ),
                },
            };
        assert(va is Ok <==> vb is Ok);
        assert(va is Err ==> va == vb);
        if va is Ok {
            assert(constant_eq(va->Ok_0, vb->Ok_0));
        }
    }
}


/// The names of the output arguments of a target node.
pub open spec fn output_names(n: BurnNode) -> Seq<Seq<char>> {
    seq![n.output_name()]
}

/// The names of the source node's outputs.
pub open spec fn source_output_names(node: Node) -> Seq<Seq<char>> {
    node.outputs@.map_values(|a: Argument| a.name@)
}

/// The source node has a supported kind and outputs, and the target node's
/// output is named as its first one.
pub open spec fn keeps_output(node: Node, n: BurnNode) -> bool {
    &&& is_supported(node.node_type)
    &&& node.outputs@.len() > 0
    &&& n.output_name() == node.outputs@[0].name@
}

/// A translated graph keeps source order, and each target node's outputs
/// are named as its source node's outputs: the first output always, and all
/// of them where the source node has one output, as every supported
/// operator has.
pub proof fn lemma_graph_output_names(g: ONNXGraph, b: BurnGraph)
    requires
        into_burn_result(g, Ok(b)),
    ensures
        b.nodes@.len() == g.nodes@.len(),
        forall|i: int| 0 <= i < g.nodes@.len() ==> #[trigger] keeps_output(g.nodes@[i], b.nodes@[i]),
        forall|i: int|
            0 <= i < g.nodes@.len() && g.nodes@[i].outputs@.len() == 1 ==> output_names(#[trigger] b.nodes@[i])
                == source_output_names(g.nodes@[i]),
{
    assert forall|i: int| 0 <= i < g.nodes@.len() implies #[trigger] keeps_output(g.nodes@[i], b.nodes@[i]) by {
        let n = g.nodes@[i];
        assert(converts_to(n, Ok::<_, ConversionError>(b.nodes@[i])));
        if !is_supported(n.node_type) {
            assert(false);
        }
        lemma_supported_keeps_output_name(n, Ok(b.nodes@[i]));
    }
    assert forall|i: int| 0 <= i < g.nodes@.len() && g.nodes@[i].outputs@.len() == 1 implies output_names(
        #[trigger] b.nodes@[i],
    ) == source_output_names(g.nodes@[i]) by {
        assert(keeps_output(g.nodes@[i], b.nodes@[i]));
        assert(output_names(b.nodes@[i]) =~= source_output_names(g.nodes@[i]));
    }
}

/// Converting arguments to tensor types keeps their number and order.
proof fn lemma_tensor_types_ok(args: Seq<Argument>)
    requires
        tensor_types(args) is Ok,
    ensures
        tensor_types(args)->Ok_0.len() == args.len(),
        forall|i: int|
            0 <= i < args.len() ==> Ok::<_, ConversionError>(tensor_types(args)->Ok_0[i])
                == #[trigger] arg_tensor_type(args[i]),
    decreases args.len(),
{
    if args.len() > 0 {
        lemma_tensor_types_ok(args.drop_last());
        let ts = tensor_types(args)->Ok_0;
        assert forall|i: int| 0 <= i < args.len() implies Ok::<_, ConversionError>(ts[i])
            == #[trigger] arg_tensor_type(args[i]) by {
            if i < args.len() - 1 {
                assert(args.drop_last()[i] == args[i]);
            }
        }
    }
}

/// A translated concatenation takes every input as a tensor, in order, with
/// its name, and its axis from the `axis` attribute.
pub proof fn lemma_concat_inputs(node: Node, r: Result<BurnNode, ConversionError>)
    requires
        node.node_type == NodeType::Concat,
        converts_to(node, r),
    ensures
        r matches Ok(BurnNode::Concat(c)) ==> {
            &&& c.inputs@.len() == node.inputs@.len()
            &&& forall|i: int|
                0 <= i < node.inputs@.len() ==> Ok::<_, ConversionError>(c.inputs@[i]) == #[trigger] arg_tensor_type(
                    node.inputs@[i],
                ) && c.inputs@[i].name == node.inputs@[i].name
            &&& Ok::<_, ConversionError>(c.output) == output_tensor(node)
            &&& Ok::<_, ConversionError>(c.dim) == axis_config(node, 1)
        },
        (forall|i: int| 0 <= i < node.inputs@.len() ==> (#[trigger] node.inputs@[i]).ty is Tensor)
            && node.outputs@.len() > 0 && node.outputs@[0].ty is Tensor && axis_config(node, 1) is Ok
            ==> r is Ok,
{
    if tensor_types(node.inputs@) is Ok {
        lemma_tensor_types_ok(node.inputs@);
    } else {
        lemma_tensor_types_error(node.inputs@);
    }
    if (forall|i: int| 0 <= i < node.inputs@.len() ==> (#[trigger] node.inputs@[i]).ty is Tensor) {
        lemma_tensor_types_all(node.inputs@);
    }
}

/// Tensor arguments all convert.
proof fn lemma_tensor_types_all(args: Seq<Argument>)
    requires
        forall|i: int| 0 <= i < args.len() ==> (#[trigger] args[i]).ty is Tensor,
    ensures
        tensor_types(args) is Ok,
    decreases args.len(),
{
    if args.len() > 0 {
        assert forall|i: int| 0 <= i < args.len() - 1 implies (#[trigger] args.drop_last()[i]).ty is Tensor by {
            assert(args.drop_last()[i] == args[i]);
        }
        lemma_tensor_types_all(args.drop_last());
        assert(args.last() == args[args.len() - 1]);
    }
}

/// Linear and convolution nodes take the queue's first entry as the weight
/// and, with two entries, the second as the bias; their input and output
/// are the node's first input and output as tensors.
pub proof fn lemma_weight_then_bias(node: Node, r: Result<BurnNode, ConversionError>)
    requires
        node.node_type == NodeType::Linear || node.node_type == NodeType::Conv2d,
        converts_to(node, r),
    ensures
        r matches Ok(BurnNode::Linear(l)) ==> {
            &&& Ok::<_, ConversionError>(l.weight) == state_data(node.states@[0])
            &&& (node.states@.len() == 2 <==> l.bias is Some)
            &&& (l.bias matches Some(b) ==> Ok::<_, ConversionError>(b) == state_data(node.states@[1]))
            &&& Ok::<_, ConversionError>(l.input) == input_tensor(node, 0)
            &&& Ok::<_, ConversionError>(l.output) == output_tensor(node)
            &&& l.name == node.name
        },
        r matches Ok(BurnNode::Conv2d(c)) ==> {
            &&& Ok::<_, ConversionError>(c.weight) == state_data(node.states@[0])
            &&& (node.states@.len() == 2 <==> c.bias is Some)
            &&& (c.bias matches Some(b) ==> Ok::<_, ConversionError>(b) == state_data(node.states@[1]))
            &&& Ok::<_, ConversionError>(c.input) == input_tensor(node, 0)
            &&& Ok::<_, ConversionError>(c.output) == output_tensor(node)
            &&& c.name == node.name
        },
        node.node_type == NodeType::Linear ==> (r is Ok <==> io_tensors(node) is Ok && weight_bias(node.states@) is Ok),
        node.node_type == NodeType::Conv2d ==> (r is Ok <==> io_tensors(node) is Ok && weight_bias(node.states@) is Ok),
        weight_bias(node.states@) is Ok ==> node.states@.len() > 0,
{
}

} // verus!
