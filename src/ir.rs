//! The source graph: nodes, arguments, attributes and parameter state, as an
//! exchange-format parser hands them over. Floating-point payloads are held as
//! their IEEE-754 bit patterns.
use vstd::prelude::*;

use crate::text::str_eq;

verus! {

/// Element type of a source tensor or scalar.
#[derive(Clone, Copy, Debug, PartialEq, Eq, Structural)]
pub enum ElementType {
    Float32,
    Float64,
    Int32,
    Int64,
    String,
    Float16,
    Bool,
}

/// Operator kind of a source node.
#[derive(Clone, Copy, Debug, PartialEq, Eq, Structural)]
pub enum NodeType {
    Add,
    Sub,
    Mul,
    Div,
    Equal,
    Conv2d,
    MaxPool2d,
    MatMul,
    Linear,
    BatchNormalization,
    Relu,
    Flatten,
    LogSoftmax,
    Constant,
    Reshape,
    Sigmoid,
    Transpose,
    Concat,
    Cast,
    Dropout,
    GlobalAveragePool,
    Abs,
    AveragePool,
    Conv1d,
    Gather,
    Gemm,
    Softmax,
    Sqrt,
    Squeeze,
    Tanh,
    Unsqueeze,
}

/// Payload of a source tensor; float payloads hold IEEE-754 bit patterns.
#[derive(Clone, Debug)]
pub enum TensorData {
    Float16(Vec<u16>),
    Float32(Vec<u32>),
    Float64(Vec<u64>),
    Int32(Vec<i32>),
    Int64(Vec<i64>),
    String(Vec<String>),
    Bool(Vec<bool>),
}

/// A tensor carried by an attribute or by parameter state.
#[derive(Clone, Debug)]
pub struct Tensor {
    pub elem_type: ElementType,
    pub dim: usize,
    pub shape: Option<Vec<usize>>,
    pub data: Option<TensorData>,
}

/// Type information of a tensor argument.
#[derive(Clone, Copy, Debug, PartialEq, Eq, Structural)]
pub struct TensorArg {
    pub elem_type: ElementType,
    pub dim: usize,
}

/// Type of a node argument.
#[derive(Clone, Copy, Debug, PartialEq, Eq, Structural)]
pub enum ArgType {
    Tensor(TensorArg),
    Scalar(ElementType),
    Shape(usize),
}

/// A named input or output of a node.
#[derive(Clone, Debug)]
pub struct Argument {
    pub name: String,
    pub ty: ArgType,
}

/// Value of a node attribute; `Float32` holds an IEEE-754 bit pattern.
#[derive(Clone, Debug)]
pub enum AttributeValue {
    Float32(u32),
    Int64(i64),
    Int64s(Vec<i64>),
    String(String),
    Tensor(Tensor),
}

/// A named attribute of a node.
#[derive(Clone, Debug)]
pub struct Attribute {
    pub name: String,
    pub value: AttributeValue,
}

/// Kind of a parameter-state entry.
#[derive(Clone, Debug)]
pub enum StateType {
    Tensor(Tensor),
}

/// One learned-parameter entry of a node.
#[derive(Clone, Debug)]
pub struct State {
    pub name: String,
    pub ty: StateType,
}

/// A node of the source graph.
#[derive(Clone, Debug)]
pub struct Node {
    pub node_type: NodeType,
    pub name: String,
    pub inputs: Vec<Argument>,
    pub outputs: Vec<Argument>,
    pub attrs: Vec<Attribute>,
    pub states: Vec<State>,
}

/// A source graph: nodes in topological order and the declared inputs and
/// outputs.
#[derive(Clone, Debug)]
pub struct ONNXGraph {
    pub nodes: Vec<Node>,
    pub inputs: Vec<Argument>,
    pub outputs: Vec<Argument>,
}

/// The value of the first attribute called `name`, if any.
pub open spec fn attr_value(attrs: Seq<Attribute>, name: Seq<char>) -> Option<AttributeValue>
    decreases attrs.len(),
{
    if attrs.len() == 0 {
        None
    } else if attrs[0].name@ == name {
        Some(attrs[0].value)
    } else {
        attr_value(attrs.drop_first(), name)
    }
}

impl Node {
    /// Looks up the first attribute called `name`.
    pub fn attr(&self, name: &str) -> (r: Option<&AttributeValue>)
        ensures
            r is None <==> attr_value(self.attrs@, name@) is None,
            r matches Some(v) ==> attr_value(self.attrs@, name@) == Some(*v),
    {
        let mut i: usize = 0;
        assert(self.attrs@.skip(0) =~= self.attrs@);
        while i < self.attrs.len()
            invariant
                i <= self.attrs@.len(),
                attr_value(self.attrs@, name@) == attr_value(self.attrs@.skip(i as int), name@),
            decreases self.attrs@.len() - i,
        {
            let a = &self.attrs[i];
            assert(self.attrs@.skip(i as int)[0] == a);
            assert(self.attrs@.skip(i as int).drop_first() =~= self.attrs@.skip(i + 1));
            if str_eq(a.name.as_str(), name) {
                return Some(&a.value);
            }
            i = i + 1;
        }
        None
    }
}

} // verus!
