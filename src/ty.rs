//! Typed argument descriptors of the target graph, and the errors of
//! translation.
use vstd::prelude::*;

use crate::ir::{ElementType, NodeType};

verus! {

/// Element kind of a target scalar.
#[derive(Clone, Copy, Debug, PartialEq, Eq, Structural)]
pub enum ScalarKind {
    Int32,
    Int64,
    Float32,
    Float64,
    Bool,
}

/// Element kind of a target tensor.
#[derive(Clone, Copy, Debug, PartialEq, Eq, Structural)]
pub enum TensorKind {
    Int,
    Float,
    Bool,
}

/// A named tensor of the target graph.
#[derive(Clone, Debug)]
pub struct TensorType {
    pub name: String,
    pub dim: usize,
    pub kind: TensorKind,
    pub shape: Option<Vec<usize>>,
}

/// A named scalar of the target graph.
#[derive(Clone, Debug)]
pub struct ScalarType {
    pub name: String,
    pub kind: ScalarKind,
}

/// A typed argument of the target graph.
#[derive(Clone, Debug)]
pub enum Type {
    Tensor(TensorType),
    Scalar(ScalarType),
}

/// The parameter-state entry that a translation found missing.
#[derive(Clone, Copy, Debug, PartialEq, Eq, Structural)]
pub enum StateField {
    Weight,
    Bias,
    Shape,
    Gamma,
    Beta,
    RunningMean,
    RunningVar,
}

/// Why a translation failed. Every failure is fatal to the model at hand.
#[derive(Clone, Copy, Debug, PartialEq, Eq, Structural)]
pub enum ConversionError {
    /// The operator kind is outside the supported set.
    UnsupportedNode(NodeType),
    /// The node lacks the input at this position.
    MissingInput(usize),
    /// The node has no output.
    MissingOutput,
    /// A tensor was required and the argument is no tensor.
    ExpectedTensor,
    /// A shape argument cannot become a target type.
    ShapeArgument,
    /// The element type has no scalar kind.
    UnsupportedScalar(ElementType),
    /// The element type has no tensor kind.
    UnsupportedTensor(ElementType),
    /// A constant node has no `value` attribute.
    MissingConstantValue,
    /// The `value` attribute of a constant is neither a number nor a tensor.
    UnsupportedConstantValue,
    /// A zero-rank constant tensor of an unsupported element type.
    UnsupportedZeroDimConstant(ElementType),
    /// A constant tensor of an unsupported element type.
    UnsupportedConstantTensor(ElementType),
    /// A zero-rank constant tensor without any element.
    EmptyConstant,
    /// A tensor carries no data.
    MissingTensorData,
    /// A tensor carries no shape.
    MissingTensorShape,
    /// Parameter data of an element type that cannot be serialized.
    UnsupportedParamData(ElementType),
    /// A parameter-state entry is missing.
    MissingState(StateField),
    /// A configuration attribute has the wrong type.
    InvalidAttribute,
    /// An axis lies outside the rank of the input.
    InvalidAxis,
    /// The input has too few dimensions for the operator.
    InvalidRank,
}

/// The scalar kind of a source element type; none for strings and half floats.
pub open spec fn scalar_kind_of(e: ElementType) -> Option<ScalarKind> {
    match e {
        ElementType::Float32 => Some(ScalarKind::Float32),
        ElementType::Float64 => Some(ScalarKind::Float64),
        ElementType::Int32 => Some(ScalarKind::Int32),
        ElementType::Int64 => Some(ScalarKind::Int64),
        ElementType::Bool => Some(ScalarKind::Bool),
        ElementType::String | ElementType::Float16 => None,
    }
}

/// The tensor kind of a source element type; none for strings and half floats.
pub open spec fn tensor_kind_of(e: ElementType) -> Option<TensorKind> {
    match e {
        ElementType::Float32 | ElementType::Float64 => Some(TensorKind::Float),
        ElementType::Int32 | ElementType::Int64 => Some(TensorKind::Int),
        ElementType::Bool => Some(TensorKind::Bool),
        ElementType::String | ElementType::Float16 => None,
    }
}

/// Converts a source element type to a scalar kind.
pub fn scalar_kind(e: ElementType) -> (r: Result<ScalarKind, ConversionError>)
    ensures
        r matches Ok(k) ==> scalar_kind_of(e) == Some(k),
        r is Err <==> scalar_kind_of(e) is None,
        r is Err ==> r == Err::<ScalarKind, _>(ConversionError::UnsupportedScalar(e)),
{
    match e {
        ElementType::Float32 => Ok(ScalarKind::Float32),
        ElementType::Float64 => Ok(ScalarKind::Float64),
        ElementType::Int32 => Ok(ScalarKind::Int32),
        ElementType::Int64 => Ok(ScalarKind::Int64),
        ElementType::Bool => Ok(ScalarKind::Bool),
        _ => Err(ConversionError::UnsupportedScalar(e)),
    }
}

/// Converts a source element type to a tensor kind.
pub fn tensor_kind(e: ElementType) -> (r: Result<TensorKind, ConversionError>)
    ensures
        r matches Ok(k) ==> tensor_kind_of(e) == Some(k),
        r is Err <==> tensor_kind_of(e) is None,
        r is Err ==> r == Err::<TensorKind, _>(ConversionError::UnsupportedTensor(e)),
{
    match e {
        ElementType::Float32 | ElementType::Float64 => Ok(TensorKind::Float),
        ElementType::Int32 | ElementType::Int64 => Ok(TensorKind::Int),
        ElementType::Bool => Ok(TensorKind::Bool),
        _ => Err(ConversionError::UnsupportedTensor(e)),
    }
}

impl TensorType {
    /// A float tensor of the given name and rank, with no static shape.
    pub fn new_float(name: String, dim: usize) -> (r: TensorType)
        ensures
            r == (TensorType { name, dim, kind: TensorKind::Float, shape: None }),
    {
        TensorType { name, dim, kind: TensorKind::Float, shape: None }
    }
}

impl ScalarType {
    /// A scalar of the given name and kind.
    pub fn new(name: String, kind: ScalarKind) -> (r: ScalarType)
        ensures
            r == (ScalarType { name, kind }),
    {
        ScalarType { name, kind }
    }
}

impl Type {
    /// The name of the argument.
    pub open spec fn spec_name(self) -> Seq<char> {
        match self {
            Type::Tensor(t) => t.name@,
            Type::Scalar(s) => s.name@,
        }
    }
}

} // verus!
