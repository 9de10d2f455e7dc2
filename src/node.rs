//! Nodes of the target graph, one variant per operator family.
use vstd::prelude::*;

use crate::ir::{Attribute, TensorData};
use crate::ty::{TensorType, Type};

verus! {

/// A parameter payload handed to the record writer: the data as the source
/// held it, and its shape.
#[derive(Clone, Debug)]
pub struct ParamData {
    pub value: TensorData,
    pub shape: Vec<usize>,
}

/// The element-wise binary operations.
#[derive(Clone, Copy, Debug, PartialEq, Eq, Structural)]
pub enum BinaryType {
    Add,
    Sub,
    Mul,
    Div,
    Equal,
}

/// An element-wise binary operation.
#[derive(Clone, Debug)]
pub struct BinaryNode {
    pub lhs: Type,
    pub rhs: Type,
    pub output: Type,
    pub binary_type: BinaryType,
}

/// The unary operations, with their parameters.
#[derive(Clone, Copy, Debug, PartialEq, Eq, Structural)]
pub enum UnaryNodeKind {
    Relu,
    Sigmoid,
    Transpose,
    Cast,
    Flatten { start_dim: usize, end_dim: usize },
    LogSoftmax { dim: usize },
}

/// A unary operation.
#[derive(Clone, Debug)]
pub struct UnaryNode {
    pub input: Type,
    pub output: Type,
    pub kind: UnaryNodeKind,
}

/// A matrix product of two tensors.
#[derive(Clone, Debug)]
pub struct MatmulNode {
    pub lhs: TensorType,
    pub rhs: TensorType,
    pub output: TensorType,
}

/// A constant tensor payload, float or integer.
#[derive(Clone, Debug)]
pub enum TensorValue {
    Float(ParamData),
    Int(ParamData),
}

/// The value of a constant; float scalars hold IEEE-754 bit patterns.
#[derive(Clone, Debug)]
pub enum ConstantValue {
    Float32(u32),
    Float64(u64),
    Int32(i32),
    Int64(i64),
    Bool(bool),
    Tensor(TensorType, TensorValue),
}

/// A constant.
#[derive(Clone, Debug)]
pub struct ConstantNode {
    pub name: String,
    pub value: ConstantValue,
    pub output: Type,
}

/// A reshape to a static shape.
#[derive(Clone, Debug)]
pub struct ReshapeNode {
    pub input: TensorType,
    pub output: TensorType,
    pub shape: Vec<usize>,
}

/// A concatenation along one axis.
#[derive(Clone, Debug)]
pub struct ConcatNode {
    pub inputs: Vec<TensorType>,
    pub output: TensorType,
    pub dim: usize,
}

/// A fully connected layer. `config` holds the attributes that configure it.
#[derive(Clone, Debug)]
pub struct LinearNode {
    pub name: String,
    pub input: TensorType,
    pub output: TensorType,
    pub weight: ParamData,
    pub bias: Option<ParamData>,
    pub config: Vec<Attribute>,
}

/// A two-dimensional convolution. `config` holds the attributes that
/// configure it.
#[derive(Clone, Debug)]
pub struct Conv2dNode {
    pub name: String,
    pub input: TensorType,
    pub output: TensorType,
    pub weight: ParamData,
    pub bias: Option<ParamData>,
    pub config: Vec<Attribute>,
}

/// A batch normalization over channel axis `dim`.
#[derive(Clone, Debug)]
pub struct BatchNormNode {
    pub dim: usize,
    pub name: String,
    pub input: TensorType,
    pub output: TensorType,
    pub gamma: ParamData,
    pub beta: ParamData,
    pub running_mean: ParamData,
    pub running_var: ParamData,
    pub config: Vec<Attribute>,
}

/// A two-dimensional max pooling.
#[derive(Clone, Debug)]
pub struct MaxPool2dNode {
    pub name: String,
    pub input: TensorType,
    pub output: TensorType,
    pub config: Vec<Attribute>,
}

/// A dropout layer.
#[derive(Clone, Debug)]
pub struct DropoutNode {
    pub name: String,
    pub input: TensorType,
    pub output: TensorType,
    pub config: Vec<Attribute>,
}

/// A global average pooling.
#[derive(Clone, Debug)]
pub struct GlobalAvgPoolNode {
    pub name: String,
    pub input: TensorType,
    pub output: TensorType,
}

/// A node of the target graph.
#[derive(Clone, Debug)]
pub enum BurnNode {
    Binary(BinaryNode),
    Unary(UnaryNode),
    Matmul(MatmulNode),
    Constant(ConstantNode),
    Reshape(ReshapeNode),
    Concat(ConcatNode),
    Linear(LinearNode),
    Conv2d(Conv2dNode),
    BatchNorm(BatchNormNode),
    MaxPool2d(MaxPool2dNode),
    Dropout(DropoutNode),
    GlobalAvgPool(GlobalAvgPoolNode),
}

impl BurnNode {
    /// The name of the node's output argument.
    pub open spec fn output_name(self) -> Seq<char> {
        match self {
            BurnNode::Binary(n) => n.output.spec_name(),
            BurnNode::Unary(n) => n.output.spec_name(),
            BurnNode::Matmul(n) => n.output.name@,
            BurnNode::Constant(n) => n.output.spec_name(),
            BurnNode::Reshape(n) => n.output.name@,
            BurnNode::Concat(n) => n.output.name@,
            BurnNode::Linear(n) => n.output.name@,
            BurnNode::Conv2d(n) => n.output.name@,
            BurnNode::BatchNorm(n) => n.output.name@,
            BurnNode::MaxPool2d(n) => n.output.name@,
            BurnNode::Dropout(n) => n.output.name@,
            BurnNode::GlobalAvgPool(n) => n.output.name@,
        }
    }
}

} // verus!
